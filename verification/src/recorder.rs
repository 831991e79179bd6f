//! The recorder task's state machine.
//!
//! A camera session runs exactly one recorder.  Opening the recorder
//! creates one `Video` row; every frame of the session's camera is
//! decoded and appended by the outer program, which reports each append
//! back here; finalizing writes the end time and the byte count into
//! the row.  The byte count is exactly the sum of the reported appends,
//! so the row accounts for every frame that was successfully written.
//!
//! A deliberate limitation, kept from the design: if the camera's
//! resolution or framerate changes mid-session the writer is not
//! reconfigured; later frames keep the original dimensions.

use vstd::prelude::*;

use crate::store::Store;
use crate::types::CameraSettingNoMeta;
use crate::types::ImageContainer;
use crate::types::Video;
use crate::types::spec_resolution_dimensions;

verus! {

/// The sum of a sequence of byte counts.
pub open spec fn sum_bytes(s: Seq<int>) -> int
    decreases s.len(),
{
    if s.len() == 0 {
        0
    } else {
        sum_bytes(s.drop_last()) + s.last()
    }
}

/// The recorder of one camera session.
pub struct RecorderState {
    camera_id: i64,
    width: u32,
    height: u32,
    framerate: i64,
    total_bytes: u64,
    appended: Ghost<Seq<int>>,
}

impl RecorderState {
    /// The camera whose frames this recorder persists.
    pub closed spec fn camera_id(&self) -> i64 {
        self.camera_id
    }

    /// The frame width the writer was opened with.
    pub closed spec fn width(&self) -> u32 {
        self.width
    }

    /// The frame height the writer was opened with.
    pub closed spec fn height(&self) -> u32 {
        self.height
    }

    /// The framerate the writer was opened with.
    pub closed spec fn framerate(&self) -> i64 {
        self.framerate
    }

    /// The bytes written so far.
    pub closed spec fn total_bytes(&self) -> int {
        self.total_bytes as int
    }

    /// The byte counts of the frames appended so far, in order.
    pub closed spec fn appended(&self) -> Seq<int> {
        self.appended@
    }

    /// The byte counter equals the sum of the reported appends.
    pub open spec fn wf(&self) -> bool {
        self.total_bytes() == sum_bytes(self.appended())
    }

    /// The width the writer should use for this camera.
    pub fn frame_width(&self) -> (r: u32)
        ensures
            r == self.width(),
    {
        self.width
    }

    /// The height the writer should use for this camera.
    pub fn frame_height(&self) -> (r: u32)
        ensures
            r == self.height(),
    {
        self.height
    }

    /// The framerate the writer should use for this camera.
    pub fn writer_framerate(&self) -> (r: i64)
        ensures
            r == self.framerate(),
    {
        self.framerate
    }

    /// Whether this frame is for the recorder's camera and should be
    /// decoded and appended.  The value present at subscription time
    /// (`first`) is skipped, so the sentinel is never written.
    pub fn wants(&self, frame: &ImageContainer, first: bool) -> (r: bool)
        ensures
            r <==> (!first && frame.camera_id == self.camera_id()),
    {
        !first && frame.camera_id == self.camera_id
    }

    /// Accounts one appended frame of `n` bytes, reported by the writer
    /// after a successful decode and append.
    pub fn appended_frame(&mut self, n: usize)
        requires
            old(self).wf(),
            old(self).total_bytes() + n <= u64::MAX,
        ensures
            final(self).wf(),
            final(self).total_bytes() == old(self).total_bytes() + n,
            final(self).appended() == old(self).appended().push(n as int),
            final(self).camera_id() == old(self).camera_id(),
            final(self).width() == old(self).width(),
            final(self).height() == old(self).height(),
            final(self).framerate() == old(self).framerate(),
    {
        self.appended = Ghost(self.appended@.push(n as int));
        self.total_bytes = self.total_bytes + n as u64;
        proof {
            assert(self.appended@.drop_last() =~= old(self).appended());
            assert(self.appended@.last() == n as int);
        }
    }
}

/// Opens the recorder for a camera session: picks the writer dimensions
/// from the camera's current setting (800x600 at 12 frames per second
/// when there is none) and creates this session's one `Video` row, with
/// the file path and start time filled in and the end columns empty.
/// Returns the recorder and the row's id.
pub fn recorder_open(
    store: &mut Store,
    camera_id: i64,
    setting: Option<&CameraSettingNoMeta>,
    file_path: String,
    start_time: i64,
) -> (r: (RecorderState, i64))
    requires
        old(store).wf(),
        old(store).next_video_id() < i64::MAX,
    ensures
        final(store).wf(),
        r.0.wf(),
        r.0.camera_id() == camera_id,
        r.0.total_bytes() == 0,
        r.0.appended() == Seq::<int>::empty(),
        match setting {
            Some(s) => (r.0.width(), r.0.height()) == spec_resolution_dimensions(s.resolution@)
                && r.0.framerate() == s.framerate,
            None => r.0.width() == 800 && r.0.height() == 600 && r.0.framerate() == 12,
        },
        r.1 == old(store).next_video_id(),
        final(store).videos() == old(store).videos().push(
            Video {
                video_id: r.1,
                camera_id: Some(camera_id),
                file_path: file_path,
                start_time: start_time,
                end_time: None,
                file_size: None,
            },
        ),
        final(store).cameras() == old(store).cameras(),
        final(store).camera_settings() == old(store).camera_settings(),
        final(store).camera_permissions() == old(store).camera_permissions(),
        final(store).users() == old(store).users(),
        final(store).next_video_id() == r.1 + 1,
        final(store).next_camera_id() == old(store).next_camera_id(),
        final(store).next_setting_id() == old(store).next_setting_id(),
        final(store).next_permission_id() == old(store).next_permission_id(),
        final(store).next_user_id() == old(store).next_user_id(),
{
    let (width, height, framerate): (u32, u32, i64) = match setting {
        Some(s) => {
            let (w, h) = crate::types::resolution_dimensions(&s.resolution);
            (w, h, s.framerate)
        },
        None => (800, 600, 12),
    };
    let video = Video {
        video_id: 0,
        camera_id: Some(camera_id),
        file_path,
        start_time,
        end_time: None,
        file_size: None,
    };
    let video_id = store.create_video(video);
    let state = RecorderState {
        camera_id,
        width,
        height,
        framerate,
        total_bytes: 0,
        appended: Ghost(Seq::empty()),
    };
    (state, video_id)
}

/// Finalizes the recording: stamps the end time and stores the byte
/// count, which equals the sum of the reported appends, into this
/// session's `Video` row.  The row always exists (the session created
/// it), so the update cannot miss.
pub fn recorder_finalize(
    state: &RecorderState,
    store: &mut Store,
    video_id: i64,
    end_time: i64,
) -> (r: Result<(), crate::store::StoreError>)
    requires
        old(store).wf(),
        state.wf(),
        state.total_bytes() <= i64::MAX,
    ensures
        final(store).wf(),
        r is Ok <==> crate::store::has_video(old(store).videos(), video_id),
        r is Ok ==> exists|i: int|
            0 <= i < old(store).videos().len() && #[trigger] old(store).videos()[i].video_id
                == video_id && crate::types::video_eq(
                final(store).videos()[i],
                Video {
                    video_id: video_id,
                    camera_id: old(store).videos()[i].camera_id,
                    file_path: old(store).videos()[i].file_path,
                    start_time: old(store).videos()[i].start_time,
                    end_time: Some(end_time),
                    file_size: Some(sum_bytes(state.appended()) as i64),
                },
            ) && final(store).videos() == old(store).videos().update(i, final(store).videos()[i]),
        r is Err ==> final(store).videos() == old(store).videos(),
        final(store).cameras() == old(store).cameras(),
        final(store).camera_settings() == old(store).camera_settings(),
        final(store).camera_permissions() == old(store).camera_permissions(),
        final(store).users() == old(store).users(),
{
    let camera_id = match store.get_video(video_id) {
        Some(v) => v.camera_id,
        None => None,
    };
    let row = Video {
        video_id,
        camera_id,
        file_path: String::new(),
        start_time: 0,
        end_time: Some(end_time),
        file_size: Some(state.total_bytes as i64),
    };
    store.update_video(row)
}

} // verus!

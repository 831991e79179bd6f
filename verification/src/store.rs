//! An exact model of the relational store the hub works against.
//!
//! Persistence itself is an external collaborator; what the core relies
//! on is the semantic shape of the tables and their invariants: ids are
//! unique and assigned in creation order, each camera has exactly one
//! setting row and at most one permission row per user, and deleting a
//! camera or user cascades the way the schema does.  The admin surface
//! and the session supervisor are verified against this model; the
//! outer program keeps it in step with the real database.

use vstd::prelude::*;

use crate::types::Camera;
use crate::types::CameraPermission;
use crate::types::CameraPermissionView;
use crate::types::CameraSetting;
use crate::types::CameraPermissionUserView;
use crate::types::User;
use crate::types::Video;
use crate::types::VideoCameraView;
use crate::types::camera_eq;
use crate::types::camera_setting_eq;
use crate::types::user_eq;
use crate::types::video_eq;

verus! {

/// Why a store operation failed.
#[derive(Clone, Copy, Debug, PartialEq, Eq, Structural)]
pub enum StoreError {
    /// No row with the given key.
    NotFound,
    /// A unique column (an id counter, a username) cannot take the value.
    Conflict,
}

/// A camera row with this id exists.
pub open spec fn has_camera(s: Seq<Camera>, id: i64) -> bool {
    exists|i: int| 0 <= i < s.len() && #[trigger] s[i].camera_id == id
}

/// A camera row with this admission address exists.
pub open spec fn has_camera_with_address(s: Seq<Camera>, addr: Seq<char>) -> bool {
    exists|i: int| 0 <= i < s.len() && #[trigger] camera_has_address(s[i], addr)
}

/// The camera row carries this admission address.
pub open spec fn camera_has_address(c: Camera, addr: Seq<char>) -> bool {
    match c.ip_address {
        Some(a) => a@ == addr,
        None => false,
    }
}

/// A setting row with this id exists.
pub open spec fn has_setting(s: Seq<CameraSetting>, id: i64) -> bool {
    exists|i: int| 0 <= i < s.len() && #[trigger] s[i].setting_id == id
}

/// A setting row for this camera exists.
pub open spec fn has_setting_for_camera(s: Seq<CameraSetting>, camera_id: i64) -> bool {
    exists|i: int| 0 <= i < s.len() && #[trigger] s[i].camera_id == camera_id
}

/// A permission row with this id exists.
pub open spec fn has_permission(s: Seq<CameraPermission>, id: i64) -> bool {
    exists|i: int| 0 <= i < s.len() && #[trigger] s[i].permission_id == id
}

/// A permission row for this (camera, user) pair exists.
pub open spec fn has_permission_pair(s: Seq<CameraPermission>, camera_id: i64, user_id: i64) -> bool {
    exists|i: int|
        0 <= i < s.len() && #[trigger] s[i].camera_id == camera_id && s[i].user_id == user_id
}

/// A user row with this id exists.
pub open spec fn has_user(s: Seq<User>, id: i64) -> bool {
    exists|i: int| 0 <= i < s.len() && #[trigger] s[i].user_id == id
}

/// A user row with this username exists.
pub open spec fn has_username(s: Seq<User>, name: Seq<char>) -> bool {
    exists|i: int| 0 <= i < s.len() && #[trigger] s[i].username@ == name
}

/// A video row with this id exists.
pub open spec fn has_video(s: Seq<Video>, id: i64) -> bool {
    exists|i: int| 0 <= i < s.len() && #[trigger] s[i].video_id == id
}

/// An active camera row with this id exists.
pub open spec fn has_active_camera(s: Seq<Camera>, id: i64) -> bool {
    exists|i: int| 0 <= i < s.len() && #[trigger] s[i].camera_id == id && s[i].is_active
}

/// The user holds control rights on the camera.
pub open spec fn spec_can_control(s: Seq<CameraPermission>, user_id: i64, camera_id: i64) -> bool {
    exists|i: int|
        0 <= i < s.len() && #[trigger] s[i].user_id == user_id && s[i].camera_id == camera_id
            && s[i].can_control
}

/// The camera is visible to the user: an active camera row exists and
/// the user's permission row for it grants viewing.
pub open spec fn spec_visible(
    cameras: Seq<Camera>,
    permissions: Seq<CameraPermission>,
    user_id: i64,
    camera_id: i64,
) -> bool {
    &&& exists|i: int|
        0 <= i < cameras.len() && #[trigger] cameras[i].camera_id == camera_id
            && cameras[i].is_active
    &&& exists|i: int|
        0 <= i < permissions.len() && #[trigger] permissions[i].camera_id == camera_id
            && permissions[i].user_id == user_id && permissions[i].can_view
}

/// The view entry belongs to the join: an active camera row and the
/// user's permission row for it agree with every field of the entry.
pub open spec fn accessible_entry(
    cameras: Seq<Camera>,
    permissions: Seq<CameraPermission>,
    user_id: i64,
    e: CameraPermissionView,
) -> bool {
    &&& exists|i: int|
        0 <= i < cameras.len() && #[trigger] cameras[i].camera_id == e.camera_id
            && cameras[i].is_active && cameras[i].name@ == e.camera_name@
    &&& exists|j: int|
        0 <= j < permissions.len() && #[trigger] permissions[j].camera_id == e.camera_id
            && permissions[j].user_id == user_id && permissions[j].can_view == e.can_view
            && permissions[j].can_control == e.can_control
}

/// The permission rows that survive removing a camera.
pub open spec fn not_for_camera(id: i64) -> spec_fn(CameraPermission) -> bool {
    |p: CameraPermission| p.camera_id != id
}

/// The permission rows that survive removing a user.
pub open spec fn not_for_user(id: i64) -> spec_fn(CameraPermission) -> bool {
    |p: CameraPermission| p.user_id != id
}

/// Filtering permission rows keeps them pairwise distinct (by id and
/// by (camera, user) pair) and keeps their ids in range.
proof fn lemma_permission_filter_wf(
    s: Seq<CameraPermission>,
    pred: spec_fn(CameraPermission) -> bool,
    bound: i64,
)
    requires
        forall|i: int, j: int|
            0 <= i < j < s.len() ==> #[trigger] s[i].permission_id != #[trigger] s[j].permission_id,
        forall|i: int, j: int|
            0 <= i < j < s.len() ==> !(#[trigger] s[i].camera_id == #[trigger] s[j].camera_id
                && s[i].user_id == s[j].user_id),
        forall|i: int| 0 <= i < s.len() ==> 1 <= #[trigger] s[i].permission_id < bound,
    ensures
        forall|i: int, j: int|
            0 <= i < j < s.filter(pred).len() ==> #[trigger] s.filter(pred)[i].permission_id
                != #[trigger] s.filter(pred)[j].permission_id,
        forall|i: int, j: int|
            0 <= i < j < s.filter(pred).len() ==> !(#[trigger] s.filter(pred)[i].camera_id
                == #[trigger] s.filter(pred)[j].camera_id && s.filter(pred)[i].user_id == s.filter(
                pred,
            )[j].user_id),
        forall|i: int| 0 <= i < s.filter(pred).len() ==> 1 <= #[trigger] s.filter(
            pred,
        )[i].permission_id < bound,
        forall|i: int| 0 <= i < s.filter(pred).len() ==> s.contains(#[trigger] s.filter(pred)[i]),
    decreases s.len(),
{
    reveal(Seq::filter);
    if s.len() > 0 {
        let dl = s.drop_last();
        assert(forall|i: int, j: int|
            0 <= i < j < dl.len() ==> #[trigger] dl[i].permission_id
                != #[trigger] dl[j].permission_id);
        assert(forall|i: int, j: int|
            0 <= i < j < dl.len() ==> !(#[trigger] dl[i].camera_id == #[trigger] dl[j].camera_id
                && dl[i].user_id == dl[j].user_id));
        assert(forall|i: int| 0 <= i < dl.len() ==> 1 <= #[trigger] dl[i].permission_id < bound);
        lemma_permission_filter_wf(dl, pred, bound);
        let f = s.filter(pred);
        let fdl = dl.filter(pred);
        if pred(s.last()) {
            assert(f == fdl.push(s.last()));
            assert(forall|i: int| 0 <= i < fdl.len() ==> dl.contains(#[trigger] fdl[i]));
            assert(forall|i: int| 0 <= i < f.len() ==> s.contains(#[trigger] f[i])) by {
                assert forall|i: int| 0 <= i < f.len() implies s.contains(#[trigger] f[i]) by {
                    if i < fdl.len() {
                        assert(dl.contains(fdl[i]));
                        let w = choose|j: int| 0 <= j < dl.len() && dl[j] == fdl[i];
                        assert(s[w] == f[i]);
                    } else {
                        assert(s[s.len() - 1] == f[i]);
                    }
                };
            };
            assert(forall|i: int|
                0 <= i < fdl.len() ==> #[trigger] fdl[i].permission_id != s.last().permission_id)
                by {
                assert forall|i: int| 0 <= i < fdl.len() implies #[trigger] fdl[i].permission_id
                    != s.last().permission_id by {
                    let e = fdl[i];
                    assert(dl.contains(e));
                    let w = choose|j: int| 0 <= j < dl.len() && dl[j] == e;
                    assert(s[w] == e);
                    assert(s[w].permission_id != s.last().permission_id);
                };
            };
            assert(forall|i: int|
                0 <= i < fdl.len() ==> !(#[trigger] fdl[i].camera_id == s.last().camera_id
                    && fdl[i].user_id == s.last().user_id)) by {
                assert forall|i: int| 0 <= i < fdl.len() implies !(#[trigger] fdl[i].camera_id
                    == s.last().camera_id && fdl[i].user_id == s.last().user_id) by {
                    let e = fdl[i];
                    assert(dl.contains(e));
                    let w = choose|j: int| 0 <= j < dl.len() && dl[j] == e;
                    assert(s[w] == e);
                };
            };
        } else {
            assert(f == fdl);
            assert(forall|i: int| 0 <= i < f.len() ==> s.contains(#[trigger] f[i])) by {
                assert forall|i: int| 0 <= i < f.len() implies s.contains(#[trigger] f[i]) by {
                    assert(dl.contains(fdl[i]));
                    let w = choose|j: int| 0 <= j < dl.len() && dl[j] == fdl[i];
                    assert(s[w] == f[i]);
                };
            };
        }
    }
}

/// The view entry belongs to the recordings join: a video row bound to
/// the camera agrees with every field of the entry, and the camera row
/// supplies the name.
pub open spec fn video_entry(
    cameras: Seq<Camera>,
    videos: Seq<Video>,
    camera_id: i64,
    e: VideoCameraView,
) -> bool {
    &&& e.camera_id == Some(camera_id)
    &&& exists|i: int|
        0 <= i < cameras.len() && #[trigger] cameras[i].camera_id == camera_id && cameras[i].name@
            == e.camera_name@
    &&& exists|j: int|
        0 <= j < videos.len() && #[trigger] videos[j].video_id == e.video_id && videos[j].camera_id
            == Some(camera_id) && videos[j].file_path@ == e.file_path@ && videos[j].file_size
            == e.file_size
}

/// The view entry belongs to the permissions join: a permission row for
/// the camera agrees with every field of the entry, and the user row
/// supplies the username.
pub open spec fn permission_user_entry(
    permissions: Seq<CameraPermission>,
    users: Seq<User>,
    camera_id: i64,
    e: CameraPermissionUserView,
) -> bool {
    &&& e.camera_id == camera_id
    &&& exists|i: int|
        0 <= i < permissions.len() && #[trigger] permissions[i].permission_id == e.permission_id
            && permissions[i].camera_id == camera_id && permissions[i].user_id == e.user_id
            && permissions[i].can_view == e.can_view && permissions[i].can_control == e.can_control
    &&& exists|j: int|
        0 <= j < users.len() && #[trigger] users[j].user_id == e.user_id && users[j].username@
            == e.username@
}

/// The in-memory model of the store.
pub struct Store {
    cameras: Vec<Camera>,
    camera_settings: Vec<CameraSetting>,
    camera_permissions: Vec<CameraPermission>,
    users: Vec<User>,
    videos: Vec<Video>,
    next_camera_id: i64,
    next_setting_id: i64,
    next_permission_id: i64,
    next_user_id: i64,
    next_video_id: i64,
}

impl Store {
    /// The camera rows, in creation order.
    pub closed spec fn cameras(&self) -> Seq<Camera> {
        self.cameras@
    }

    /// The setting rows, in creation order.
    pub closed spec fn camera_settings(&self) -> Seq<CameraSetting> {
        self.camera_settings@
    }

    /// The permission rows, in creation order.
    pub closed spec fn camera_permissions(&self) -> Seq<CameraPermission> {
        self.camera_permissions@
    }

    /// The user rows, in creation order.
    pub closed spec fn users(&self) -> Seq<User> {
        self.users@
    }

    /// The video rows, in creation order.
    pub closed spec fn videos(&self) -> Seq<Video> {
        self.videos@
    }

    /// The id the next camera row gets.
    pub closed spec fn next_camera_id(&self) -> i64 {
        self.next_camera_id
    }

    /// The id the next setting row gets.
    pub closed spec fn next_setting_id(&self) -> i64 {
        self.next_setting_id
    }

    /// The id the next permission row gets.
    pub closed spec fn next_permission_id(&self) -> i64 {
        self.next_permission_id
    }

    /// The id the next user row gets.
    pub closed spec fn next_user_id(&self) -> i64 {
        self.next_user_id
    }

    /// The id the next video row gets.
    pub closed spec fn next_video_id(&self) -> i64 {
        self.next_video_id
    }

    /// The store's invariants: ids are unique, positive, and below the
    /// id counters; each camera has at most one setting row and at most
    /// one permission row per user; usernames are unique.
    pub open spec fn wf(&self) -> bool {
        &&& 1 <= self.next_camera_id()
        &&& 1 <= self.next_setting_id()
        &&& 1 <= self.next_permission_id()
        &&& 1 <= self.next_user_id()
        &&& 1 <= self.next_video_id()
        &&& forall|i: int, j: int|
            0 <= i < j < self.cameras().len() ==> #[trigger] self.cameras()[i].camera_id
                != #[trigger] self.cameras()[j].camera_id
        &&& forall|i: int|
            0 <= i < self.cameras().len() ==> 1 <= #[trigger] self.cameras()[i].camera_id
                < self.next_camera_id()
        &&& forall|i: int, j: int|
            0 <= i < j < self.camera_settings().len()
                ==> #[trigger] self.camera_settings()[i].setting_id
                != #[trigger] self.camera_settings()[j].setting_id
        &&& forall|i: int, j: int|
            0 <= i < j < self.camera_settings().len()
                ==> #[trigger] self.camera_settings()[i].camera_id
                != #[trigger] self.camera_settings()[j].camera_id
        &&& forall|i: int|
            0 <= i < self.camera_settings().len()
                ==> 1 <= #[trigger] self.camera_settings()[i].setting_id < self.next_setting_id()
        &&& forall|i: int, j: int|
            0 <= i < j < self.camera_permissions().len()
                ==> #[trigger] self.camera_permissions()[i].permission_id
                != #[trigger] self.camera_permissions()[j].permission_id
        &&& forall|i: int, j: int|
            0 <= i < j < self.camera_permissions().len() ==> !(
                #[trigger] self.camera_permissions()[i].camera_id
                    == #[trigger] self.camera_permissions()[j].camera_id
                    && self.camera_permissions()[i].user_id == self.camera_permissions()[j].user_id)
        &&& forall|i: int|
            0 <= i < self.camera_permissions().len()
                ==> 1 <= #[trigger] self.camera_permissions()[i].permission_id
                < self.next_permission_id()
        &&& forall|i: int, j: int|
            0 <= i < j < self.users().len() ==> #[trigger] self.users()[i].user_id
                != #[trigger] self.users()[j].user_id
        &&& forall|i: int, j: int|
            0 <= i < j < self.users().len() ==> #[trigger] self.users()[i].username@
                != #[trigger] self.users()[j].username@
        &&& forall|i: int|
            0 <= i < self.users().len() ==> 1 <= #[trigger] self.users()[i].user_id
                < self.next_user_id()
        &&& forall|i: int, j: int|
            0 <= i < j < self.videos().len() ==> #[trigger] self.videos()[i].video_id
                != #[trigger] self.videos()[j].video_id
        &&& forall|i: int|
            0 <= i < self.videos().len() ==> 1 <= #[trigger] self.videos()[i].video_id
                < self.next_video_id()
    }

    /// An empty store.
    pub fn new() -> (s: Self)
        ensures
            s.wf(),
            s.cameras().len() == 0,
            s.camera_settings().len() == 0,
            s.camera_permissions().len() == 0,
            s.users().len() == 0,
            s.videos().len() == 0,
            s.next_camera_id() == 1,
            s.next_setting_id() == 1,
            s.next_permission_id() == 1,
            s.next_user_id() == 1,
            s.next_video_id() == 1,
    {
        Store {
            cameras: Vec::new(),
            camera_settings: Vec::new(),
            camera_permissions: Vec::new(),
            users: Vec::new(),
            videos: Vec::new(),
            next_camera_id: 1,
            next_setting_id: 1,
            next_permission_id: 1,
            next_user_id: 1,
            next_video_id: 1,
        }
    }

    /// Inserts a camera row under the next id, which it returns.
    #[verifier::rlimit(50)]
    pub fn create_camera(&mut self, camera: Camera) -> (id: i64)
        requires
            old(self).wf(),
            old(self).next_camera_id() < i64::MAX,
        ensures
            final(self).wf(),
            id == old(self).next_camera_id(),
            final(self).cameras() == old(self).cameras().push(
                Camera { camera_id: id, ..camera },
            ),
            final(self).next_camera_id() == id + 1,
            final(self).camera_settings() == old(self).camera_settings(),
            final(self).camera_permissions() == old(self).camera_permissions(),
            final(self).users() == old(self).users(),
            final(self).videos() == old(self).videos(),
            final(self).next_setting_id() == old(self).next_setting_id(),
            final(self).next_permission_id() == old(self).next_permission_id(),
            final(self).next_user_id() == old(self).next_user_id(),
            final(self).next_video_id() == old(self).next_video_id(),
    {
        let id = self.next_camera_id;
        let row = Camera { camera_id: id, ..camera };
        self.cameras.push(row);
        self.next_camera_id = id + 1;
        proof {
            assert(self.camera_settings() == old(self).camera_settings());
            assert(self.camera_permissions() == old(self).camera_permissions());
            assert(self.users() == old(self).users());
            assert(self.videos() == old(self).videos());
            assert(self.next_setting_id() == old(self).next_setting_id());
            assert(self.next_permission_id() == old(self).next_permission_id());
            assert(self.next_user_id() == old(self).next_user_id());
            assert(self.next_video_id() == old(self).next_video_id());
        }
        id
    }

    /// Returns the camera row with this id, if one exists.
    pub fn get_camera(&self, id: i64) -> (r: Option<Camera>)
        ensures
            r is Some <==> has_camera(self.cameras(), id),
            r matches Some(c) ==> c.camera_id == id && exists|i: int|
                0 <= i < self.cameras().len() && #[trigger] self.cameras()[i].camera_id == id
                    && camera_eq(c, self.cameras()[i]),
    {
        let n = self.cameras.len();
        let mut i: usize = 0;
        while i < n
            invariant
                0 <= i <= n == self.cameras().len(),
                forall|j: int| 0 <= j < i ==> #[trigger] self.cameras()[j].camera_id != id,
            decreases n - i,
        {
            if self.cameras[i].camera_id == id {
                return Some(self.cameras[i].duplicate());
            }
            i = i + 1;
        }
        None
    }

    /// Returns the camera row with this admission address, if one
    /// exists (the first in creation order when several match).
    pub fn get_camera_by_address(&self, address: &String) -> (r: Option<Camera>)
        ensures
            r is Some <==> has_camera_with_address(self.cameras(), address@),
            r matches Some(c) ==> exists|i: int|
                0 <= i < self.cameras().len() && #[trigger] camera_has_address(
                    self.cameras()[i],
                    address@,
                ) && camera_eq(c, self.cameras()[i]) && (forall|j: int|
                    0 <= j < i ==> !camera_has_address(#[trigger] self.cameras()[j], address@)),
    {
        let n = self.cameras.len();
        let mut i: usize = 0;
        while i < n
            invariant
                0 <= i <= n == self.cameras().len(),
                forall|j: int|
                    0 <= j < i ==> !#[trigger] camera_has_address(self.cameras()[j], address@),
            decreases n - i,
        {
            let matches_addr: bool = match &self.cameras[i].ip_address {
                Some(a) => *a == *address,
                None => false,
            };
            proof {
                assert(matches_addr == camera_has_address(self.cameras()[i as int], address@));
            }
            if matches_addr {
                return Some(self.cameras[i].duplicate());
            }
            i = i + 1;
        }
        None
    }

    /// Inserts a setting row under the next id, which it returns.
    /// Rejected when the camera already has a setting row, keeping the
    /// one-setting-per-camera invariant.
    pub fn create_camera_setting(&mut self, setting: CameraSetting) -> (r: Result<i64, StoreError>)
        requires
            old(self).wf(),
            old(self).next_setting_id() < i64::MAX,
        ensures
            final(self).wf(),
            r is Ok <==> !has_setting_for_camera(old(self).camera_settings(), setting.camera_id),
            r matches Ok(id) ==> id == old(self).next_setting_id()
                && final(self).camera_settings() == old(self).camera_settings().push(
                CameraSetting { setting_id: id, ..setting },
            ) && final(self).next_setting_id() == id + 1,
            r is Err ==> final(self).camera_settings() == old(self).camera_settings()
                && final(self).next_setting_id() == old(self).next_setting_id(),
            final(self).cameras() == old(self).cameras(),
            final(self).camera_permissions() == old(self).camera_permissions(),
            final(self).users() == old(self).users(),
            final(self).videos() == old(self).videos(),
            final(self).next_camera_id() == old(self).next_camera_id(),
            final(self).next_permission_id() == old(self).next_permission_id(),
            final(self).next_user_id() == old(self).next_user_id(),
            final(self).next_video_id() == old(self).next_video_id(),
    {
        let n = self.camera_settings.len();
        let mut i: usize = 0;
        while i < n
            invariant
                *self == *old(self),
                old(self).wf(),
                0 <= i <= n == self.camera_settings().len(),
                forall|j: int|
                    0 <= j < i ==> #[trigger] self.camera_settings()[j].camera_id
                        != setting.camera_id,
            decreases n - i,
        {
            if self.camera_settings[i].camera_id == setting.camera_id {
                proof {
                    assert(self.wf());
                }
                return Err(StoreError::Conflict);
            }
            i = i + 1;
        }
        let id = self.next_setting_id;
        let row = CameraSetting { setting_id: id, ..setting };
        self.camera_settings.push(row);
        self.next_setting_id = id + 1;
        proof {
            assert(self.cameras() == old(self).cameras());
            assert(self.camera_permissions() == old(self).camera_permissions());
            assert(self.users() == old(self).users());
            assert(self.videos() == old(self).videos());
            assert(self.next_camera_id() == old(self).next_camera_id());
            assert(self.next_permission_id() == old(self).next_permission_id());
            assert(self.next_user_id() == old(self).next_user_id());
            assert(self.next_video_id() == old(self).next_video_id());
        }
        Ok(id)
    }

    /// Returns the setting row with this id, if one exists.
    pub fn get_camera_setting(&self, id: i64) -> (r: Option<CameraSetting>)
        ensures
            r is Some <==> has_setting(self.camera_settings(), id),
            r matches Some(s) ==> s.setting_id == id && exists|i: int|
                0 <= i < self.camera_settings().len()
                    && #[trigger] self.camera_settings()[i].setting_id == id
                    && camera_setting_eq(s, self.camera_settings()[i]),
    {
        let n = self.camera_settings.len();
        let mut i: usize = 0;
        while i < n
            invariant
                0 <= i <= n == self.camera_settings().len(),
                forall|j: int| 0 <= j < i ==> #[trigger] self.camera_settings()[j].setting_id != id,
            decreases n - i,
        {
            if self.camera_settings[i].setting_id == id {
                return Some(self.camera_settings[i].duplicate());
            }
            i = i + 1;
        }
        None
    }

    /// Returns the setting row of this camera, if one exists.
    pub fn get_setting_for_camera(&self, camera_id: i64) -> (r: Option<CameraSetting>)
        ensures
            r is Some <==> has_setting_for_camera(self.camera_settings(), camera_id),
            r matches Some(s) ==> s.camera_id == camera_id && exists|i: int|
                0 <= i < self.camera_settings().len()
                    && #[trigger] self.camera_settings()[i].camera_id == camera_id
                    && camera_setting_eq(s, self.camera_settings()[i]),
    {
        let n = self.camera_settings.len();
        let mut i: usize = 0;
        while i < n
            invariant
                0 <= i <= n == self.camera_settings().len(),
                forall|j: int|
                    0 <= j < i ==> #[trigger] self.camera_settings()[j].camera_id != camera_id,
            decreases n - i,
        {
            if self.camera_settings[i].camera_id == camera_id {
                return Some(self.camera_settings[i].duplicate());
            }
            i = i + 1;
        }
        None
    }

    /// Overwrites the mutable columns of the setting row carrying
    /// `row.setting_id` (the camera the row belongs to cannot change).
    pub fn update_camera_setting(&mut self, row: CameraSetting) -> (r: Result<(), StoreError>)
        requires
            old(self).wf(),
        ensures
            final(self).wf(),
            r is Ok <==> has_setting(old(self).camera_settings(), row.setting_id),
            r is Ok ==> exists|i: int|
                0 <= i < old(self).camera_settings().len()
                    && #[trigger] old(self).camera_settings()[i].setting_id == row.setting_id
                    && final(self).camera_settings() == old(self).camera_settings().update(
                    i,
                    CameraSetting {
                        setting_id: row.setting_id,
                        camera_id: old(self).camera_settings()[i].camera_id,
                        ..row
                    },
                ),
            r is Err ==> final(self).camera_settings() == old(self).camera_settings(),
            final(self).cameras() == old(self).cameras(),
            final(self).camera_permissions() == old(self).camera_permissions(),
            final(self).users() == old(self).users(),
            final(self).videos() == old(self).videos(),
            final(self).next_camera_id() == old(self).next_camera_id(),
            final(self).next_setting_id() == old(self).next_setting_id(),
            final(self).next_permission_id() == old(self).next_permission_id(),
            final(self).next_user_id() == old(self).next_user_id(),
            final(self).next_video_id() == old(self).next_video_id(),
    {
        let n = self.camera_settings.len();
        let mut i: usize = 0;
        while i < n
            invariant
                *self == *old(self),
                old(self).wf(),
                0 <= i <= n == self.camera_settings().len(),
                forall|j: int|
                    0 <= j < i ==> #[trigger] self.camera_settings()[j].setting_id
                        != row.setting_id,
            decreases n - i,
        {
            if self.camera_settings[i].setting_id == row.setting_id {
                let camera_id = self.camera_settings[i].camera_id;
                let new_row = CameraSetting { setting_id: row.setting_id, camera_id, ..row };
                self.camera_settings[i] = new_row;
                proof {
                    assert(self.cameras() == old(self).cameras());
                    assert(self.camera_permissions() == old(self).camera_permissions());
                    assert(self.users() == old(self).users());
                    assert(self.videos() == old(self).videos());
                    assert(self.next_camera_id() == old(self).next_camera_id());
                    assert(self.next_setting_id() == old(self).next_setting_id());
                    assert(self.next_permission_id() == old(self).next_permission_id());
                    assert(self.next_user_id() == old(self).next_user_id());
                    assert(self.next_video_id() == old(self).next_video_id());
                }
                return Ok(());
            }
            i = i + 1;
        }
        Err(StoreError::NotFound)
    }

    /// Inserts a permission row under the next id, which it returns.
    /// Rejected when the (camera, user) pair already has a row.
    pub fn create_camera_permission(&mut self, permission: CameraPermission) -> (r: Result<i64, StoreError>)
        requires
            old(self).wf(),
            old(self).next_permission_id() < i64::MAX,
        ensures
            final(self).wf(),
            r is Ok <==> !has_permission_pair(
                old(self).camera_permissions(),
                permission.camera_id,
                permission.user_id,
            ),
            r matches Ok(id) ==> id == old(self).next_permission_id()
                && final(self).camera_permissions() == old(self).camera_permissions().push(
                CameraPermission { permission_id: id, ..permission },
            ) && final(self).next_permission_id() == id + 1,
            r is Err ==> final(self).camera_permissions() == old(self).camera_permissions()
                && final(self).next_permission_id() == old(self).next_permission_id(),
            final(self).cameras() == old(self).cameras(),
            final(self).camera_settings() == old(self).camera_settings(),
            final(self).users() == old(self).users(),
            final(self).videos() == old(self).videos(),
            final(self).next_camera_id() == old(self).next_camera_id(),
            final(self).next_setting_id() == old(self).next_setting_id(),
            final(self).next_user_id() == old(self).next_user_id(),
            final(self).next_video_id() == old(self).next_video_id(),
    {
        let n = self.camera_permissions.len();
        let mut i: usize = 0;
        while i < n
            invariant
                *self == *old(self),
                old(self).wf(),
                0 <= i <= n == self.camera_permissions().len(),
                forall|j: int|
                    0 <= j < i ==> !(#[trigger] self.camera_permissions()[j].camera_id
                        == permission.camera_id && self.camera_permissions()[j].user_id
                        == permission.user_id),
            decreases n - i,
        {
            if self.camera_permissions[i].camera_id == permission.camera_id
                && self.camera_permissions[i].user_id == permission.user_id {
                proof {
                    assert(self.wf());
                }
                return Err(StoreError::Conflict);
            }
            i = i + 1;
        }
        let id = self.next_permission_id;
        let row = CameraPermission { permission_id: id, ..permission };
        self.camera_permissions.push(row);
        self.next_permission_id = id + 1;
        proof {
            assert(self.cameras() == old(self).cameras());
            assert(self.camera_settings() == old(self).camera_settings());
            assert(self.users() == old(self).users());
            assert(self.videos() == old(self).videos());
            assert(self.next_camera_id() == old(self).next_camera_id());
            assert(self.next_setting_id() == old(self).next_setting_id());
            assert(self.next_user_id() == old(self).next_user_id());
            assert(self.next_video_id() == old(self).next_video_id());
        }
        Ok(id)
    }

    /// Returns the permission row with this id, if one exists.
    pub fn get_camera_permission(&self, id: i64) -> (r: Option<CameraPermission>)
        ensures
            r is Some <==> has_permission(self.camera_permissions(), id),
            r matches Some(p) ==> p.permission_id == id && exists|i: int|
                0 <= i < self.camera_permissions().len()
                    && #[trigger] self.camera_permissions()[i].permission_id == id
                    && self.camera_permissions()[i] == p,
    {
        let n = self.camera_permissions.len();
        let mut i: usize = 0;
        while i < n
            invariant
                0 <= i <= n == self.camera_permissions().len(),
                forall|j: int|
                    0 <= j < i ==> #[trigger] self.camera_permissions()[j].permission_id != id,
            decreases n - i,
        {
            if self.camera_permissions[i].permission_id == id {
                return Some(self.camera_permissions[i]);
            }
            i = i + 1;
        }
        None
    }

    /// Overwrites the rights of the permission row carrying
    /// `row.permission_id` (which camera and user it binds cannot
    /// change).
    pub fn update_camera_permission(&mut self, row: CameraPermission) -> (r: Result<CameraPermission, StoreError>)
        requires
            old(self).wf(),
        ensures
            final(self).wf(),
            r is Ok <==> has_permission(old(self).camera_permissions(), row.permission_id),
            r matches Ok(stored) ==> exists|i: int|
                0 <= i < old(self).camera_permissions().len()
                    && #[trigger] old(self).camera_permissions()[i].permission_id
                    == row.permission_id && stored == (CameraPermission {
                    permission_id: row.permission_id,
                    camera_id: old(self).camera_permissions()[i].camera_id,
                    user_id: old(self).camera_permissions()[i].user_id,
                    can_view: row.can_view,
                    can_control: row.can_control,
                }) && final(self).camera_permissions() == old(self).camera_permissions().update(
                    i,
                    stored,
                ),
            r is Err ==> final(self).camera_permissions() == old(self).camera_permissions(),
            final(self).cameras() == old(self).cameras(),
            final(self).camera_settings() == old(self).camera_settings(),
            final(self).users() == old(self).users(),
            final(self).videos() == old(self).videos(),
            final(self).next_camera_id() == old(self).next_camera_id(),
            final(self).next_setting_id() == old(self).next_setting_id(),
            final(self).next_permission_id() == old(self).next_permission_id(),
            final(self).next_user_id() == old(self).next_user_id(),
            final(self).next_video_id() == old(self).next_video_id(),
    {
        let n = self.camera_permissions.len();
        let mut i: usize = 0;
        while i < n
            invariant
                *self == *old(self),
                old(self).wf(),
                0 <= i <= n == self.camera_permissions().len(),
                forall|j: int|
                    0 <= j < i ==> #[trigger] self.camera_permissions()[j].permission_id
                        != row.permission_id,
            decreases n - i,
        {
            if self.camera_permissions[i].permission_id == row.permission_id {
                let stored = CameraPermission {
                    permission_id: row.permission_id,
                    camera_id: self.camera_permissions[i].camera_id,
                    user_id: self.camera_permissions[i].user_id,
                    can_view: row.can_view,
                    can_control: row.can_control,
                };
                self.camera_permissions[i] = stored;
                proof {
                    assert(self.cameras() == old(self).cameras());
                    assert(self.camera_settings() == old(self).camera_settings());
                    assert(self.users() == old(self).users());
                    assert(self.videos() == old(self).videos());
                    assert(self.next_camera_id() == old(self).next_camera_id());
                    assert(self.next_setting_id() == old(self).next_setting_id());
                    assert(self.next_permission_id() == old(self).next_permission_id());
                    assert(self.next_user_id() == old(self).next_user_id());
                    assert(self.next_video_id() == old(self).next_video_id());
                }
                return Ok(stored);
            }
            i = i + 1;
        }
        Err(StoreError::NotFound)
    }

    /// Whether the user holds control rights on the camera.
    pub fn user_can_control(&self, user_id: i64, camera_id: i64) -> (r: bool)
        ensures
            r == spec_can_control(self.camera_permissions(), user_id, camera_id),
    {
        let n = self.camera_permissions.len();
        let mut i: usize = 0;
        while i < n
            invariant
                0 <= i <= n == self.camera_permissions().len(),
                forall|j: int|
                    0 <= j < i ==> !(#[trigger] self.camera_permissions()[j].user_id == user_id
                        && self.camera_permissions()[j].camera_id == camera_id
                        && self.camera_permissions()[j].can_control),
            decreases n - i,
        {
            if self.camera_permissions[i].user_id == user_id
                && self.camera_permissions[i].camera_id == camera_id
                && self.camera_permissions[i].can_control {
                return true;
            }
            i = i + 1;
        }
        false
    }

    /// Inserts a user row under the next id, which it returns.
    /// Rejected when the username is taken.
    pub fn create_user(&mut self, user: User) -> (r: Result<i64, StoreError>)
        requires
            old(self).wf(),
            old(self).next_user_id() < i64::MAX,
        ensures
            final(self).wf(),
            r is Ok <==> !has_username(old(self).users(), user.username@),
            r matches Ok(id) ==> id == old(self).next_user_id() && final(self).users()
                == old(self).users().push(User { user_id: id, ..user })
                && final(self).next_user_id() == id + 1,
            r is Err ==> final(self).users() == old(self).users() && final(self).next_user_id()
                == old(self).next_user_id(),
            final(self).cameras() == old(self).cameras(),
            final(self).camera_settings() == old(self).camera_settings(),
            final(self).camera_permissions() == old(self).camera_permissions(),
            final(self).videos() == old(self).videos(),
            final(self).next_camera_id() == old(self).next_camera_id(),
            final(self).next_setting_id() == old(self).next_setting_id(),
            final(self).next_permission_id() == old(self).next_permission_id(),
            final(self).next_video_id() == old(self).next_video_id(),
    {
        let n = self.users.len();
        let mut i: usize = 0;
        while i < n
            invariant
                *self == *old(self),
                old(self).wf(),
                0 <= i <= n == self.users().len(),
                forall|j: int| 0 <= j < i ==> #[trigger] self.users()[j].username@ != user.username@,
            decreases n - i,
        {
            if self.users[i].username == user.username {
                proof {
                    assert(self.wf());
                }
                return Err(StoreError::Conflict);
            }
            i = i + 1;
        }
        let id = self.next_user_id;
        let row = User { user_id: id, ..user };
        self.users.push(row);
        self.next_user_id = id + 1;
        proof {
            assert(self.cameras() == old(self).cameras());
            assert(self.camera_settings() == old(self).camera_settings());
            assert(self.camera_permissions() == old(self).camera_permissions());
            assert(self.videos() == old(self).videos());
            assert(self.next_camera_id() == old(self).next_camera_id());
            assert(self.next_setting_id() == old(self).next_setting_id());
            assert(self.next_permission_id() == old(self).next_permission_id());
            assert(self.next_video_id() == old(self).next_video_id());
        }
        Ok(id)
    }

    /// Returns the user row with this id, if one exists.
    pub fn get_user(&self, id: i64) -> (r: Option<User>)
        ensures
            r is Some <==> has_user(self.users(), id),
            r matches Some(u) ==> u.user_id == id && exists|i: int|
                0 <= i < self.users().len() && #[trigger] self.users()[i].user_id == id && user_eq(
                    u,
                    self.users()[i],
                ),
    {
        let n = self.users.len();
        let mut i: usize = 0;
        while i < n
            invariant
                0 <= i <= n == self.users().len(),
                forall|j: int| 0 <= j < i ==> #[trigger] self.users()[j].user_id != id,
            decreases n - i,
        {
            if self.users[i].user_id == id {
                return Some(self.users[i].duplicate());
            }
            i = i + 1;
        }
        None
    }

    /// Returns the user row with this username, if one exists.
    pub fn get_user_by_username(&self, name: &String) -> (r: Option<User>)
        ensures
            r is Some <==> has_username(self.users(), name@),
            r matches Some(u) ==> u.username@ == name@ && exists|i: int|
                0 <= i < self.users().len() && #[trigger] self.users()[i].username@ == name@
                    && user_eq(u, self.users()[i]),
    {
        let n = self.users.len();
        let mut i: usize = 0;
        while i < n
            invariant
                0 <= i <= n == self.users().len(),
                forall|j: int| 0 <= j < i ==> #[trigger] self.users()[j].username@ != name@,
            decreases n - i,
        {
            if self.users[i].username == *name {
                return Some(self.users[i].duplicate());
            }
            i = i + 1;
        }
        None
    }

    /// All user rows, in creation order.
    pub fn get_all_users(&self) -> (r: Vec<User>)
        ensures
            r@.len() == self.users().len(),
            forall|i: int| 0 <= i < r@.len() ==> user_eq(#[trigger] r@[i], self.users()[i]),
    {
        let n = self.users.len();
        let mut out: Vec<User> = Vec::new();
        let mut i: usize = 0;
        while i < n
            invariant
                0 <= i <= n == self.users().len(),
                out@.len() == i,
                forall|j: int| 0 <= j < i ==> user_eq(#[trigger] out@[j], self.users()[j]),
            decreases n - i,
        {
            out.push(self.users[i].duplicate());
            i = i + 1;
        }
        out
    }

    /// Overwrites the username, password hash and creation stamp of the
    /// user row carrying `row.user_id`.  Succeeds exactly when that row
    /// exists and no other user already holds the new username.
    pub fn update_user(&mut self, row: User) -> (r: Result<(), StoreError>)
        requires
            old(self).wf(),
        ensures
            final(self).wf(),
            r is Ok <==> has_user(old(self).users(), row.user_id) && !(exists|j: int|
                0 <= j < old(self).users().len() && (#[trigger] old(self).users()[j]).username@
                    == row.username@ && old(self).users()[j].user_id != row.user_id),
            r is Ok ==> exists|i: int|
                0 <= i < old(self).users().len() && #[trigger] old(self).users()[i].user_id
                    == row.user_id && final(self).users() == old(self).users().update(
                    i,
                    User { user_id: row.user_id, ..row },
                ),
            r is Err ==> final(self).users() == old(self).users(),
            final(self).cameras() == old(self).cameras(),
            final(self).camera_settings() == old(self).camera_settings(),
            final(self).camera_permissions() == old(self).camera_permissions(),
            final(self).videos() == old(self).videos(),
            final(self).next_camera_id() == old(self).next_camera_id(),
            final(self).next_setting_id() == old(self).next_setting_id(),
            final(self).next_permission_id() == old(self).next_permission_id(),
            final(self).next_user_id() == old(self).next_user_id(),
            final(self).next_video_id() == old(self).next_video_id(),
    {
        let n = self.users.len();
        let mut k: usize = 0;
        while k < n
            invariant
                *self == *old(self),
                old(self).wf(),
                0 <= k <= n == self.users().len(),
                forall|j: int|
                    0 <= j < k ==> !(#[trigger] self.users()[j].username@ == row.username@
                        && self.users()[j].user_id != row.user_id),
            decreases n - k,
        {
            if self.users[k].username == row.username && self.users[k].user_id != row.user_id {
                proof {
                    assert(self.wf());
                }
                return Err(StoreError::Conflict);
            }
            k = k + 1;
        }
        let mut i: usize = 0;
        while i < n
            invariant
                *self == *old(self),
                old(self).wf(),
                0 <= i <= n == self.users().len(),
                forall|j: int|
                    0 <= j < n ==> !(#[trigger] self.users()[j].username@ == row.username@
                        && self.users()[j].user_id != row.user_id),
                forall|j: int| 0 <= j < i ==> #[trigger] self.users()[j].user_id != row.user_id,
            decreases n - i,
        {
            if self.users[i].user_id == row.user_id {
                let new_row = User { user_id: row.user_id, ..row };
                self.users[i] = new_row;
                proof {
                    assert(self.cameras() == old(self).cameras());
                    assert(self.camera_settings() == old(self).camera_settings());
                    assert(self.camera_permissions() == old(self).camera_permissions());
                    assert(self.videos() == old(self).videos());
                    assert(self.next_camera_id() == old(self).next_camera_id());
                    assert(self.next_setting_id() == old(self).next_setting_id());
                    assert(self.next_permission_id() == old(self).next_permission_id());
                    assert(self.next_user_id() == old(self).next_user_id());
                    assert(self.next_video_id() == old(self).next_video_id());
                }
                return Ok(());
            }
            i = i + 1;
        }
        proof {
            assert(self.wf());
        }
        Err(StoreError::NotFound)
    }

    /// Inserts a video row under the next id, which it returns.
    pub fn create_video(&mut self, video: Video) -> (id: i64)
        requires
            old(self).wf(),
            old(self).next_video_id() < i64::MAX,
        ensures
            final(self).wf(),
            id == old(self).next_video_id(),
            final(self).videos() == old(self).videos().push(Video { video_id: id, ..video }),
            final(self).next_video_id() == id + 1,
            final(self).cameras() == old(self).cameras(),
            final(self).camera_settings() == old(self).camera_settings(),
            final(self).camera_permissions() == old(self).camera_permissions(),
            final(self).users() == old(self).users(),
            final(self).next_camera_id() == old(self).next_camera_id(),
            final(self).next_setting_id() == old(self).next_setting_id(),
            final(self).next_permission_id() == old(self).next_permission_id(),
            final(self).next_user_id() == old(self).next_user_id(),
    {
        let id = self.next_video_id;
        let row = Video { video_id: id, ..video };
        self.videos.push(row);
        self.next_video_id = id + 1;
        proof {
            assert(self.cameras() == old(self).cameras());
            assert(self.camera_settings() == old(self).camera_settings());
            assert(self.camera_permissions() == old(self).camera_permissions());
            assert(self.users() == old(self).users());
            assert(self.next_camera_id() == old(self).next_camera_id());
            assert(self.next_setting_id() == old(self).next_setting_id());
            assert(self.next_permission_id() == old(self).next_permission_id());
            assert(self.next_user_id() == old(self).next_user_id());
        }
        id
    }

    /// Returns the video row with this id, if one exists.
    pub fn get_video(&self, id: i64) -> (r: Option<Video>)
        ensures
            r is Some <==> has_video(self.videos(), id),
            r matches Some(v) ==> v.video_id == id && exists|i: int|
                0 <= i < self.videos().len() && #[trigger] self.videos()[i].video_id == id
                    && video_eq(v, self.videos()[i]),
    {
        let n = self.videos.len();
        let mut i: usize = 0;
        while i < n
            invariant
                0 <= i <= n == self.videos().len(),
                forall|j: int| 0 <= j < i ==> #[trigger] self.videos()[j].video_id != id,
            decreases n - i,
        {
            if self.videos[i].video_id == id {
                return Some(self.videos[i].duplicate());
            }
            i = i + 1;
        }
        None
    }

    /// Overwrites the camera binding, end time and byte count of the
    /// video row carrying `row.video_id` (path and start time do not
    /// change, as in the schema).
    pub fn update_video(&mut self, row: Video) -> (r: Result<(), StoreError>)
        requires
            old(self).wf(),
        ensures
            final(self).wf(),
            r is Ok <==> has_video(old(self).videos(), row.video_id),
            r is Ok ==> exists|i: int|
                0 <= i < old(self).videos().len() && #[trigger] old(self).videos()[i].video_id
                    == row.video_id && video_eq(
                    final(self).videos()[i],
                    Video {
                        video_id: row.video_id,
                        camera_id: row.camera_id,
                        file_path: old(self).videos()[i].file_path,
                        start_time: old(self).videos()[i].start_time,
                        end_time: row.end_time,
                        file_size: row.file_size,
                    },
                ) && final(self).videos() == old(self).videos().update(i, final(self).videos()[i]),
            r is Err ==> final(self).videos() == old(self).videos(),
            final(self).cameras() == old(self).cameras(),
            final(self).camera_settings() == old(self).camera_settings(),
            final(self).camera_permissions() == old(self).camera_permissions(),
            final(self).users() == old(self).users(),
            final(self).next_camera_id() == old(self).next_camera_id(),
            final(self).next_setting_id() == old(self).next_setting_id(),
            final(self).next_permission_id() == old(self).next_permission_id(),
            final(self).next_user_id() == old(self).next_user_id(),
            final(self).next_video_id() == old(self).next_video_id(),
    {
        let n = self.videos.len();
        let mut i: usize = 0;
        while i < n
            invariant
                *self == *old(self),
                old(self).wf(),
                0 <= i <= n == self.videos().len(),
                forall|j: int| 0 <= j < i ==> #[trigger] self.videos()[j].video_id != row.video_id,
            decreases n - i,
        {
            if self.videos[i].video_id == row.video_id {
                let file_path = self.videos[i].file_path.clone();
                let start_time = self.videos[i].start_time;
                let new_row = Video {
                    video_id: row.video_id,
                    camera_id: row.camera_id,
                    file_path,
                    start_time,
                    end_time: row.end_time,
                    file_size: row.file_size,
                };
                self.videos[i] = new_row;
                proof {
                    assert(self.cameras() == old(self).cameras());
                    assert(self.camera_settings() == old(self).camera_settings());
                    assert(self.camera_permissions() == old(self).camera_permissions());
                    assert(self.users() == old(self).users());
                    assert(self.next_camera_id() == old(self).next_camera_id());
                    assert(self.next_setting_id() == old(self).next_setting_id());
                    assert(self.next_permission_id() == old(self).next_permission_id());
                    assert(self.next_user_id() == old(self).next_user_id());
                    assert(self.next_video_id() == old(self).next_video_id());
                }
                return Ok(());
            }
            i = i + 1;
        }
        proof {
            assert(self.wf());
        }
        Err(StoreError::NotFound)
    }

    /// Returns the permission row binding this camera and user, if any.
    pub fn get_permission_pair(&self, camera_id: i64, user_id: i64) -> (r: Option<CameraPermission>)
        ensures
            r is Some <==> has_permission_pair(self.camera_permissions(), camera_id, user_id),
            r matches Some(p) ==> p.camera_id == camera_id && p.user_id == user_id && exists|i: int|
                0 <= i < self.camera_permissions().len()
                    && #[trigger] self.camera_permissions()[i].camera_id == camera_id
                    && self.camera_permissions()[i].user_id == user_id
                    && self.camera_permissions()[i] == p,
    {
        let n = self.camera_permissions.len();
        let mut i: usize = 0;
        while i < n
            invariant
                0 <= i <= n == self.camera_permissions().len(),
                forall|j: int|
                    0 <= j < i ==> !(#[trigger] self.camera_permissions()[j].camera_id == camera_id
                        && self.camera_permissions()[j].user_id == user_id),
            decreases n - i,
        {
            if self.camera_permissions[i].camera_id == camera_id
                && self.camera_permissions[i].user_id == user_id {
                return Some(self.camera_permissions[i]);
            }
            i = i + 1;
        }
        None
    }

    /// The cameras of this user, one view per permission row on an
    /// active camera, in camera order: what the camera-list endpoints
    /// return and what a viewer session's entitlements derive from.
    pub fn list_accessible_to_user(&self, user_id: i64) -> (r: Vec<CameraPermissionView>)
        requires
            self.wf(),
        ensures
            forall|k: int|
                0 <= k < r@.len() ==> #[trigger] accessible_entry(
                    self.cameras(),
                    self.camera_permissions(),
                    user_id,
                    r@[k],
                ),
            forall|i: int|
                0 <= i < self.cameras().len() && (#[trigger] self.cameras()[i]).is_active
                    && has_permission_pair(
                    self.camera_permissions(),
                    self.cameras()[i].camera_id,
                    user_id,
                ) ==> exists|k: int|
                    0 <= k < r@.len() && #[trigger] r@[k].camera_id == self.cameras()[i].camera_id,
            forall|k1: int, k2: int, i1: int, i2: int|
                0 <= k1 < k2 < r@.len() && 0 <= i1 < self.cameras().len() && 0 <= i2
                    < self.cameras().len() && (#[trigger] self.cameras()[i1]).camera_id == (
                #[trigger] r@[k1]).camera_id && (#[trigger] self.cameras()[i2]).camera_id == (
                #[trigger] r@[k2]).camera_id ==> i1 < i2,
    {
        let n = self.cameras.len();
        let mut out: Vec<CameraPermissionView> = Vec::new();
        let mut i: usize = 0;
        while i < n
            invariant
                self.wf(),
                0 <= i <= n == self.cameras().len(),
                forall|k: int|
                    0 <= k < out@.len() ==> #[trigger] accessible_entry(
                        self.cameras(),
                        self.camera_permissions(),
                        user_id,
                        out@[k],
                    ),
                forall|j: int|
                    0 <= j < i && (#[trigger] self.cameras()[j]).is_active && has_permission_pair(
                        self.camera_permissions(),
                        self.cameras()[j].camera_id,
                        user_id,
                    ) ==> exists|k: int|
                        0 <= k < out@.len() && #[trigger] out@[k].camera_id
                            == self.cameras()[j].camera_id,
                forall|k: int, j: int|
                    0 <= k < out@.len() && 0 <= j < self.cameras().len()
                        && (#[trigger] self.cameras()[j]).camera_id == (
                    #[trigger] out@[k]).camera_id ==> j < i,
                forall|k1: int, k2: int, i1: int, i2: int|
                    0 <= k1 < k2 < out@.len() && 0 <= i1 < self.cameras().len() && 0 <= i2
                        < self.cameras().len() && (#[trigger] self.cameras()[i1]).camera_id == (
                    #[trigger] out@[k1]).camera_id && (#[trigger] self.cameras()[i2]).camera_id
                        == (#[trigger] out@[k2]).camera_id ==> i1 < i2,
            decreases n - i,
        {
            if self.cameras[i].is_active {
                let camera_id = self.cameras[i].camera_id;
                match self.get_permission_pair(camera_id, user_id) {
                    Some(p) => {
                        let entry = CameraPermissionView {
                            camera_id,
                            camera_name: self.cameras[i].name.clone(),
                            ip_address: match &self.cameras[i].ip_address {
                                Some(a) => Some(a.clone()),
                                None => None,
                            },
                            can_view: p.can_view,
                            can_control: p.can_control,
                        };
                        proof {
                            assert(accessible_entry(
                                self.cameras(),
                                self.camera_permissions(),
                                user_id,
                                entry,
                            ));
                        }
                        let ghost out_before = out@;
                        out.push(entry);
                        proof {
                            assert(forall|k: int|
                                0 <= k < out_before.len() ==> out@[k] == #[trigger] out_before[k]);
                            assert(out@[out_before.len() as int].camera_id
                                == self.cameras()[i as int].camera_id);
                            // The new entry's camera row is row i, and only
                            // row i: camera ids are unique.
                            assert(forall|j: int|
                                0 <= j < self.cameras().len()
                                    && (#[trigger] self.cameras()[j]).camera_id == entry.camera_id
                                    ==> j == i);
                        }
                    },
                    None => {},
                }
            }
            i = i + 1;
        }
        out
    }

    /// Removes the camera row with this id and cascades: its setting
    /// row and its permission rows go away, and its recordings lose
    /// their camera binding (they stay downloadable).
    pub fn delete_camera(&mut self, id: i64) -> (r: Result<(), StoreError>)
        requires
            old(self).wf(),
        ensures
            final(self).wf(),
            r is Ok <==> has_camera(old(self).cameras(), id),
            r is Ok ==> exists|i: int|
                0 <= i < old(self).cameras().len() && #[trigger] old(self).cameras()[i].camera_id
                    == id && final(self).cameras() == old(self).cameras().remove(i),
            r is Err ==> final(self).cameras() == old(self).cameras()
                && final(self).camera_settings() == old(self).camera_settings()
                && final(self).camera_permissions() == old(self).camera_permissions()
                && final(self).videos() == old(self).videos(),
            r is Ok ==> final(self).camera_permissions() == old(self).camera_permissions().filter(
                not_for_camera(id),
            ),
            r is Ok ==> !has_setting_for_camera(final(self).camera_settings(), id),
            r is Ok ==> !has_camera(final(self).cameras(), id),
            r is Ok ==> forall|j: int|
                0 <= j < final(self).camera_settings().len() ==> old(
                    self,
                ).camera_settings().contains(#[trigger] final(self).camera_settings()[j]),
            r is Ok ==> final(self).videos().len() == old(self).videos().len(),
            r is Ok ==> forall|j: int|
                0 <= j < final(self).videos().len() ==> #[trigger] final(self).videos()[j] == (
                if old(self).videos()[j].camera_id == Some(id) {
                    Video { camera_id: None, ..old(self).videos()[j] }
                } else {
                    old(self).videos()[j]
                }),
            final(self).users() == old(self).users(),
            final(self).next_camera_id() == old(self).next_camera_id(),
            final(self).next_setting_id() == old(self).next_setting_id(),
            final(self).next_permission_id() == old(self).next_permission_id(),
            final(self).next_user_id() == old(self).next_user_id(),
            final(self).next_video_id() == old(self).next_video_id(),
    {
        let n = self.cameras.len();
        let mut i: usize = 0;
        while i < n
            invariant_except_break
                0 <= i <= n,
            invariant
                *self == *old(self),
                old(self).wf(),
                n == self.cameras().len(),
                forall|j: int| 0 <= j < i ==> #[trigger] self.cameras()[j].camera_id != id,
            ensures
                0 <= i <= n,
                forall|j: int| 0 <= j < i ==> #[trigger] self.cameras()[j].camera_id != id,
                i < n ==> self.cameras()[i as int].camera_id == id,
            decreases n - i,
        {
            if self.cameras[i].camera_id == id {
                break;
            }
            i = i + 1;
        }
        if i == n {
            proof {
                assert(self.wf());
            }
            return Err(StoreError::NotFound);
        }
        self.cameras.remove(i);
        proof {
            assert(self.camera_permissions() == old(self).camera_permissions());
            assert(self.camera_settings() == old(self).camera_settings());
            assert(self.videos() == old(self).videos());
            assert(self.users() == old(self).users());
        }

        // Permission rows of the camera go away.
        let mut kept: Vec<CameraPermission> = Vec::new();
        let mut k: usize = 0;
        let pn = self.camera_permissions.len();
        while k < pn
            invariant
                0 <= k <= pn == self.camera_permissions().len(),
                kept@ == self.camera_permissions().subrange(0, k as int).filter(
                    not_for_camera(id),
                ),
            decreases pn - k,
        {
            let ghost prefix = self.camera_permissions().subrange(0, k as int);
            let ghost extended = self.camera_permissions().subrange(0, k + 1);
            proof {
                reveal(Seq::filter);
                assert(extended.drop_last() =~= prefix);
                assert(extended.last() == self.camera_permissions()[k as int]);
            }
            let p = self.camera_permissions[k];
            if p.camera_id != id {
                kept.push(p);
            }
            k = k + 1;
        }
        proof {
            assert(self.camera_permissions() == old(self).camera_permissions());
            assert(self.camera_permissions().subrange(0, pn as int) =~= self.camera_permissions());
            lemma_permission_filter_wf(
                self.camera_permissions(),
                not_for_camera(id),
                self.next_permission_id(),
            );
        }
        self.camera_permissions = kept;

        // The camera's setting row (there is at most one) goes away.
        let sn = self.camera_settings.len();
        let mut s: usize = 0;
        while s < sn
            invariant_except_break
                0 <= s <= sn,
            invariant
                sn == self.camera_settings().len(),
                forall|j: int| 0 <= j < s ==> #[trigger] self.camera_settings()[j].camera_id != id,
            ensures
                0 <= s <= sn,
                sn == self.camera_settings().len(),
                forall|j: int| 0 <= j < s ==> #[trigger] self.camera_settings()[j].camera_id != id,
                s < sn ==> self.camera_settings()[s as int].camera_id == id,
            decreases sn - s,
        {
            if self.camera_settings[s].camera_id == id {
                break;
            }
            s = s + 1;
        }
        if s < sn {
            self.camera_settings.remove(s);
        }

        // Recordings lose the binding but keep their file.
        let ghost vsnap = self.videos@;
        let ghost cam_snap = self.cameras@;
        let ghost set_snap = self.camera_settings@;
        let ghost perm_snap = self.camera_permissions@;
        let ghost user_snap = self.users@;
        let vn = self.videos.len();
        let mut v: usize = 0;
        while v < vn
            invariant
                0 <= v <= vn == self.videos().len() == vsnap.len(),
                self.cameras() == cam_snap,
                self.camera_settings() == set_snap,
                self.camera_permissions() == perm_snap,
                self.users() == user_snap,
                self.next_camera_id() == old(self).next_camera_id(),
                self.next_setting_id() == old(self).next_setting_id(),
                self.next_permission_id() == old(self).next_permission_id(),
                self.next_user_id() == old(self).next_user_id(),
                self.next_video_id() == old(self).next_video_id(),
                forall|j: int| v <= j < vn ==> #[trigger] self.videos()[j] == vsnap[j],
                forall|j: int|
                    0 <= j < v ==> #[trigger] self.videos()[j] == (
                    if vsnap[j].camera_id == Some(id) {
                        Video { camera_id: None, ..vsnap[j] }
                    } else {
                        vsnap[j]
                    }),
            decreases vn - v,
        {
            let is_bound: bool = match self.videos[v].camera_id {
                Some(c) => c == id,
                None => false,
            };
            if is_bound {
                self.videos[v].camera_id = None;
            }
            v = v + 1;
        }
        proof {
            assert(vsnap == old(self).videos());
        }
        Ok(())
    }

    /// Removes the user row with this id and cascades: the user's
    /// permission rows go away and setting rows they last modified lose
    /// that attribution.
    pub fn delete_user(&mut self, id: i64) -> (r: Result<(), StoreError>)
        requires
            old(self).wf(),
        ensures
            final(self).wf(),
            r is Ok <==> has_user(old(self).users(), id),
            r is Ok ==> exists|i: int|
                0 <= i < old(self).users().len() && #[trigger] old(self).users()[i].user_id == id
                    && final(self).users() == old(self).users().remove(i),
            r is Err ==> final(self).users() == old(self).users()
                && final(self).camera_permissions() == old(self).camera_permissions()
                && final(self).camera_settings() == old(self).camera_settings(),
            r is Ok ==> final(self).camera_permissions() == old(self).camera_permissions().filter(
                not_for_user(id),
            ),
            r is Ok ==> final(self).camera_settings().len() == old(self).camera_settings().len(),
            r is Ok ==> forall|j: int|
                0 <= j < final(self).camera_settings().len()
                    ==> #[trigger] final(self).camera_settings()[j] == (
                    if old(self).camera_settings()[j].modified_by == Some(id) {
                        CameraSetting { modified_by: None, ..old(self).camera_settings()[j] }
                    } else {
                        old(self).camera_settings()[j]
                    }),
            final(self).cameras() == old(self).cameras(),
            final(self).videos() == old(self).videos(),
            final(self).next_camera_id() == old(self).next_camera_id(),
            final(self).next_setting_id() == old(self).next_setting_id(),
            final(self).next_permission_id() == old(self).next_permission_id(),
            final(self).next_user_id() == old(self).next_user_id(),
            final(self).next_video_id() == old(self).next_video_id(),
    {
        let n = self.users.len();
        let mut i: usize = 0;
        while i < n
            invariant_except_break
                0 <= i <= n,
            invariant
                *self == *old(self),
                old(self).wf(),
                n == self.users().len(),
                forall|j: int| 0 <= j < i ==> #[trigger] self.users()[j].user_id != id,
            ensures
                0 <= i <= n,
                forall|j: int| 0 <= j < i ==> #[trigger] self.users()[j].user_id != id,
                i < n ==> self.users()[i as int].user_id == id,
            decreases n - i,
        {
            if self.users[i].user_id == id {
                break;
            }
            i = i + 1;
        }
        if i == n {
            proof {
                assert(self.wf());
            }
            return Err(StoreError::NotFound);
        }
        self.users.remove(i);
        proof {
            assert(self.camera_permissions() == old(self).camera_permissions());
            assert(self.camera_settings() == old(self).camera_settings());
            assert(self.videos() == old(self).videos());
            assert(self.cameras() == old(self).cameras());
        }

        // Permission rows of the user go away.
        let mut kept: Vec<CameraPermission> = Vec::new();
        let mut k: usize = 0;
        let pn = self.camera_permissions.len();
        while k < pn
            invariant
                0 <= k <= pn == self.camera_permissions().len(),
                kept@ == self.camera_permissions().subrange(0, k as int).filter(not_for_user(id)),
            decreases pn - k,
        {
            let ghost prefix = self.camera_permissions().subrange(0, k as int);
            let ghost extended = self.camera_permissions().subrange(0, k + 1);
            proof {
                reveal(Seq::filter);
                assert(extended.drop_last() =~= prefix);
                assert(extended.last() == self.camera_permissions()[k as int]);
            }
            let p = self.camera_permissions[k];
            if p.user_id != id {
                kept.push(p);
            }
            k = k + 1;
        }
        proof {
            assert(self.camera_permissions() == old(self).camera_permissions());
            assert(self.camera_permissions().subrange(0, pn as int) =~= self.camera_permissions());
            lemma_permission_filter_wf(
                self.camera_permissions(),
                not_for_user(id),
                self.next_permission_id(),
            );
        }
        self.camera_permissions = kept;

        // Setting rows the user last modified lose that attribution.
        let ghost ssnap = self.camera_settings@;
        let ghost cam_snap = self.cameras@;
        let ghost perm_snap = self.camera_permissions@;
        let ghost user_snap = self.users@;
        let ghost vid_snap = self.videos@;
        let sn = self.camera_settings.len();
        let mut s: usize = 0;
        while s < sn
            invariant
                0 <= s <= sn == self.camera_settings().len() == ssnap.len(),
                self.cameras() == cam_snap,
                self.camera_permissions() == perm_snap,
                self.users() == user_snap,
                self.videos() == vid_snap,
                self.next_camera_id() == old(self).next_camera_id(),
                self.next_setting_id() == old(self).next_setting_id(),
                self.next_permission_id() == old(self).next_permission_id(),
                self.next_user_id() == old(self).next_user_id(),
                self.next_video_id() == old(self).next_video_id(),
                forall|j: int| s <= j < sn ==> #[trigger] self.camera_settings()[j] == ssnap[j],
                forall|j: int|
                    0 <= j < s ==> #[trigger] self.camera_settings()[j] == (
                    if ssnap[j].modified_by == Some(id) {
                        CameraSetting { modified_by: None, ..ssnap[j] }
                    } else {
                        ssnap[j]
                    }),
            decreases sn - s,
        {
            let was_theirs: bool = match self.camera_settings[s].modified_by {
                Some(u) => u == id,
                None => false,
            };
            if was_theirs {
                self.camera_settings[s].modified_by = None;
            }
            s = s + 1;
        }
        proof {
            assert(ssnap == old(self).camera_settings());
        }
        Ok(())
    }

    /// The recordings of one camera, in creation order, each joined
    /// with the camera's name.  Empty when the camera does not exist.
    pub fn list_videos_for_camera(&self, camera_id: i64) -> (r: Vec<VideoCameraView>)
        requires
            self.wf(),
        ensures
            !has_camera(self.cameras(), camera_id) ==> r@.len() == 0,
            forall|k: int|
                0 <= k < r@.len() ==> #[trigger] video_entry(
                    self.cameras(),
                    self.videos(),
                    camera_id,
                    r@[k],
                ),
            has_camera(self.cameras(), camera_id) ==> forall|j: int|
                0 <= j < self.videos().len() && #[trigger] self.videos()[j].camera_id == Some(
                    camera_id,
                ) ==> exists|k: int|
                    0 <= k < r@.len() && #[trigger] r@[k].video_id == self.videos()[j].video_id,
            forall|k1: int, k2: int, j1: int, j2: int|
                0 <= k1 < k2 < r@.len() && 0 <= j1 < self.videos().len() && 0 <= j2
                    < self.videos().len() && (#[trigger] self.videos()[j1]).video_id == (
                #[trigger] r@[k1]).video_id && (#[trigger] self.videos()[j2]).video_id == (
                #[trigger] r@[k2]).video_id ==> j1 < j2,
    {
        let mut out: Vec<VideoCameraView> = Vec::new();
        let camera = match self.get_camera(camera_id) {
            Some(c) => c,
            None => {
                return out;
            },
        };
        let n = self.videos.len();
        let mut i: usize = 0;
        while i < n
            invariant
                self.wf(),
                0 <= i <= n == self.videos().len(),
                camera.camera_id == camera_id,
                exists|ci: int|
                    0 <= ci < self.cameras().len() && #[trigger] self.cameras()[ci].camera_id
                        == camera_id && crate::types::camera_eq(camera, self.cameras()[ci]),
                forall|k: int|
                    0 <= k < out@.len() ==> #[trigger] video_entry(
                        self.cameras(),
                        self.videos(),
                        camera_id,
                        out@[k],
                    ),
                forall|j: int|
                    0 <= j < i && #[trigger] self.videos()[j].camera_id == Some(camera_id)
                        ==> exists|k: int|
                        0 <= k < out@.len() && #[trigger] out@[k].video_id
                            == self.videos()[j].video_id,
                forall|k: int, j: int|
                    0 <= k < out@.len() && 0 <= j < self.videos().len()
                        && (#[trigger] self.videos()[j]).video_id == (#[trigger] out@[k]).video_id
                        ==> j < i,
                forall|k1: int, k2: int, j1: int, j2: int|
                    0 <= k1 < k2 < out@.len() && 0 <= j1 < self.videos().len() && 0 <= j2
                        < self.videos().len() && (#[trigger] self.videos()[j1]).video_id == (
                    #[trigger] out@[k1]).video_id && (#[trigger] self.videos()[j2]).video_id == (
                    #[trigger] out@[k2]).video_id ==> j1 < j2,
            decreases n - i,
        {
            let is_bound: bool = match self.videos[i].camera_id {
                Some(c) => c == camera_id,
                None => false,
            };
            if is_bound {
                let entry = VideoCameraView {
                    video_id: self.videos[i].video_id,
                    camera_id: Some(camera_id),
                    camera_name: camera.name.clone(),
                    file_path: self.videos[i].file_path.clone(),
                    file_size: self.videos[i].file_size,
                };
                proof {
                    assert(video_entry(self.cameras(), self.videos(), camera_id, entry));
                }
                let ghost out_before = out@;
                out.push(entry);
                proof {
                    assert(forall|k: int|
                        0 <= k < out_before.len() ==> out@[k] == #[trigger] out_before[k]);
                    assert(out@[out_before.len() as int].video_id
                        == self.videos()[i as int].video_id);
                    // The new entry's video row is row i, and only row i:
                    // video ids are unique.
                    assert(forall|j: int|
                        0 <= j < self.videos().len() && (#[trigger] self.videos()[j]).video_id
                            == entry.video_id ==> j == i);
                }
            }
            i = i + 1;
        }
        out
    }

    /// The permission rows of one camera, in creation order, each
    /// joined with the holder's username.  Rows whose user is gone are
    /// left out, as the join leaves them out.
    pub fn list_permissions_for_camera(&self, camera_id: i64) -> (r: Vec<CameraPermissionUserView>)
        requires
            self.wf(),
        ensures
            forall|k: int|
                0 <= k < r@.len() ==> #[trigger] permission_user_entry(
                    self.camera_permissions(),
                    self.users(),
                    camera_id,
                    r@[k],
                ),
            forall|j: int|
                0 <= j < self.camera_permissions().len()
                    && #[trigger] self.camera_permissions()[j].camera_id == camera_id && has_user(
                    self.users(),
                    self.camera_permissions()[j].user_id,
                ) ==> exists|k: int|
                    0 <= k < r@.len() && #[trigger] r@[k].permission_id
                        == self.camera_permissions()[j].permission_id,
            forall|k1: int, k2: int, j1: int, j2: int|
                0 <= k1 < k2 < r@.len() && 0 <= j1 < self.camera_permissions().len() && 0 <= j2
                    < self.camera_permissions().len()
                    && (#[trigger] self.camera_permissions()[j1]).permission_id == (
                #[trigger] r@[k1]).permission_id
                    && (#[trigger] self.camera_permissions()[j2]).permission_id == (
                #[trigger] r@[k2]).permission_id ==> j1 < j2,
    {
        let mut out: Vec<CameraPermissionUserView> = Vec::new();
        let n = self.camera_permissions.len();
        let mut i: usize = 0;
        while i < n
            invariant
                self.wf(),
                0 <= i <= n == self.camera_permissions().len(),
                forall|k: int|
                    0 <= k < out@.len() ==> #[trigger] permission_user_entry(
                        self.camera_permissions(),
                        self.users(),
                        camera_id,
                        out@[k],
                    ),
                forall|j: int|
                    0 <= j < i && #[trigger] self.camera_permissions()[j].camera_id == camera_id
                        && has_user(self.users(), self.camera_permissions()[j].user_id)
                        ==> exists|k: int|
                        0 <= k < out@.len() && #[trigger] out@[k].permission_id
                            == self.camera_permissions()[j].permission_id,
                forall|k: int, j: int|
                    0 <= k < out@.len() && 0 <= j < self.camera_permissions().len()
                        && (#[trigger] self.camera_permissions()[j]).permission_id == (
                    #[trigger] out@[k]).permission_id ==> j < i,
                forall|k1: int, k2: int, j1: int, j2: int|
                    0 <= k1 < k2 < out@.len() && 0 <= j1 < self.camera_permissions().len() && 0
                        <= j2 < self.camera_permissions().len()
                        && (#[trigger] self.camera_permissions()[j1]).permission_id == (
                    #[trigger] out@[k1]).permission_id
                        && (#[trigger] self.camera_permissions()[j2]).permission_id == (
                    #[trigger] out@[k2]).permission_id ==> j1 < j2,
            decreases n - i,
        {
            if self.camera_permissions[i].camera_id == camera_id {
                let p = self.camera_permissions[i];
                match self.get_user(p.user_id) {
                    Some(u) => {
                        let entry = CameraPermissionUserView {
                            permission_id: p.permission_id,
                            camera_id,
                            user_id: p.user_id,
                            username: u.username,
                            can_view: p.can_view,
                            can_control: p.can_control,
                        };
                        proof {
                            assert(permission_user_entry(
                                self.camera_permissions(),
                                self.users(),
                                camera_id,
                                entry,
                            ));
                        }
                        let ghost out_before = out@;
                        out.push(entry);
                        proof {
                            assert(forall|k: int|
                                0 <= k < out_before.len() ==> out@[k] == #[trigger] out_before[k]);
                            assert(out@[out_before.len() as int].permission_id
                                == self.camera_permissions()[i as int].permission_id);
                            // The new entry's permission row is row i, and
                            // only row i: permission ids are unique.
                            assert(forall|j: int|
                                0 <= j < self.camera_permissions().len()
                                    && (#[trigger] self.camera_permissions()[j]).permission_id
                                    == entry.permission_id ==> j == i);
                        }
                    },
                    None => {},
                }
            }
            i = i + 1;
        }
        out
    }

    /// Whether an active camera row with this id exists.
    pub fn camera_is_active(&self, id: i64) -> (r: bool)
        ensures
            r == has_active_camera(self.cameras(), id),
    {
        let n = self.cameras.len();
        let mut i: usize = 0;
        while i < n
            invariant
                0 <= i <= n == self.cameras().len(),
                forall|j: int|
                    0 <= j < i ==> !(#[trigger] self.cameras()[j].camera_id == id
                        && self.cameras()[j].is_active),
            decreases n - i,
        {
            if self.cameras[i].camera_id == id && self.cameras[i].is_active {
                return true;
            }
            i = i + 1;
        }
        false
    }

    /// How many permission rows there are.
    pub fn permission_count(&self) -> (n: usize)
        ensures
            n == self.camera_permissions().len(),
    {
        self.camera_permissions.len()
    }

    /// The permission row at this position, in creation order.
    pub fn permission_at(&self, i: usize) -> (p: CameraPermission)
        requires
            i < self.camera_permissions().len(),
        ensures
            p == self.camera_permissions()[i as int],
    {
        self.camera_permissions[i]
    }

    /// The id the next camera row would get.
    pub fn peek_next_camera_id(&self) -> (r: i64)
        ensures
            r == self.next_camera_id(),
    {
        self.next_camera_id
    }

    /// How many camera rows there are.
    pub fn camera_count(&self) -> (n: usize)
        ensures
            n == self.cameras().len(),
    {
        self.cameras.len()
    }

    /// The camera row at this position, in creation order.
    pub fn camera_at(&self, i: usize) -> (c: Camera)
        requires
            i < self.cameras().len(),
        ensures
            camera_eq(c, self.cameras()[i as int]),
    {
        self.cameras[i].duplicate()
    }

    /// The id the next user row would get.
    pub fn peek_next_user_id(&self) -> (r: i64)
        ensures
            r == self.next_user_id(),
    {
        self.next_user_id
    }

    /// How many user rows there are.
    pub fn user_count(&self) -> (n: usize)
        ensures
            n == self.users().len(),
    {
        self.users.len()
    }

    /// The user row at this position, in creation order.
    pub fn user_at(&self, i: usize) -> (u: User)
        requires
            i < self.users().len(),
        ensures
            user_eq(u, self.users()[i as int]),
    {
        self.users[i].duplicate()
    }
}

} // verus!

//! Data model of the hub: stored records, rail payloads, control
//! messages, and the forms the admin surface accepts.
//!
//! Instants are kept as unix timestamps (seconds since the epoch, UTC),
//! which is all the core ever reads of a point in time.

use vstd::prelude::*;

verus! {

/// A camera enrolled with the hub.  The admission address is either a
/// full `host:port` endpoint or `host:*`, meaning any port of that host.
pub struct Camera {
    pub camera_id: i64,
    pub name: String,
    pub ip_address: Option<String>,
    pub last_connected: Option<i64>,
    pub is_active: bool,
}

/// The current setting row of a camera; exactly one per camera.
pub struct CameraSetting {
    pub setting_id: i64,
    pub camera_id: i64,
    pub flashlight_enabled: bool,
    pub resolution: String,
    pub framerate: i64,
    pub last_modified: i64,
    pub modified_by: Option<i64>,
}

/// A camera setting as sent to the camera firmware: the setting without
/// its bookkeeping columns.
pub struct CameraSettingNoMeta {
    pub flashlight_enabled: bool,
    pub resolution: String,
    pub framerate: i64,
}

/// Per-(camera, user) rights; at most one row per pair.
#[derive(Clone, Copy)]
pub struct CameraPermission {
    pub permission_id: i64,
    pub camera_id: i64,
    pub user_id: i64,
    pub can_view: bool,
    pub can_control: bool,
}

/// A camera as one user sees it: the join of a camera row with that
/// user's permission row.
pub struct CameraPermissionView {
    pub camera_id: i64,
    pub camera_name: String,
    pub ip_address: Option<String>,
    pub can_view: bool,
    pub can_control: bool,
}

/// A permission row joined with the holder's username.
pub struct CameraPermissionUserView {
    pub permission_id: i64,
    pub camera_id: i64,
    pub user_id: i64,
    pub username: String,
    pub can_view: bool,
    pub can_control: bool,
}

/// A registered user.
pub struct User {
    pub user_id: i64,
    pub username: String,
    pub password_hash: String,
    pub created_at: i64,
}

/// One recording attempt: created when a recorder task starts, and
/// finalized (end time and byte count) when it stops.
pub struct Video {
    pub video_id: i64,
    pub camera_id: Option<i64>,
    pub file_path: String,
    pub start_time: i64,
    pub end_time: Option<i64>,
    pub file_size: Option<i64>,
}

/// A recording joined with the owning camera's name.
pub struct VideoCameraView {
    pub video_id: i64,
    pub camera_id: Option<i64>,
    pub camera_name: String,
    pub file_path: String,
    pub file_size: Option<i64>,
}

/// What a login form carries.
pub struct Credentials {
    pub username: String,
    pub password: String,
}

/// The frame-rail payload: one camera frame.  The rail's initial
/// sentinel carries `camera_id == -1` and is discarded by subscribers.
pub struct ImageContainer {
    pub camera_id: i64,
    pub timestamp: i64,
    pub image_bytes: Vec<u8>,
}

/// A control message addressed to one camera's firmware.
pub enum CameraMessage {
    SettingChanged(CameraSettingNoMeta),
    Restart,
}

/// A delta of the camera list, broadcast to every session.
pub enum CameraListChange {
    Added { camera_id: i64 },
    Removed { camera_id: i64 },
    Updated { camera_id: i64 },
}

/// The control-rail payload.  `Initial` is the sentinel value present
/// before the first publish and is discarded by subscribers.
pub enum ApiChannelMessage {
    CameraAction { camera_id: i64, message: CameraMessage },
    CameraListChanged(CameraListChange),
    Initial,
}

/// Form for enrolling a camera.
pub struct AddCameraForm {
    pub name: String,
    pub address: String,
    pub skip_mdns_connect: bool,
}

/// Form for creating or updating a user.
pub struct UserForm {
    pub username: String,
    pub password: String,
}

/// Form for updating a permission row.
pub struct UpdatePermissionForm {
    pub can_view: bool,
    pub can_control: bool,
}

/// Form for updating a camera setting.
pub struct UpdateSettingsForm {
    pub flashlight_enabled: bool,
    pub resolution: String,
    pub framerate: i64,
}

/// Field-wise equality of camera rows.
pub open spec fn camera_eq(a: Camera, b: Camera) -> bool {
    &&& a.camera_id == b.camera_id
    &&& a.name@ == b.name@
    &&& option_string_eq(a.ip_address, b.ip_address)
    &&& a.last_connected == b.last_connected
    &&& a.is_active == b.is_active
}

/// Field-wise equality of optional strings.
pub open spec fn option_string_eq(a: Option<String>, b: Option<String>) -> bool {
    match (a, b) {
        (Some(x), Some(y)) => x@ == y@,
        (None, None) => true,
        _ => false,
    }
}

/// Field-wise equality of setting rows.
pub open spec fn camera_setting_eq(a: CameraSetting, b: CameraSetting) -> bool {
    &&& a.setting_id == b.setting_id
    &&& a.camera_id == b.camera_id
    &&& a.flashlight_enabled == b.flashlight_enabled
    &&& a.resolution@ == b.resolution@
    &&& a.framerate == b.framerate
    &&& a.last_modified == b.last_modified
    &&& a.modified_by == b.modified_by
}

/// Field-wise equality of user rows.
pub open spec fn user_eq(a: User, b: User) -> bool {
    &&& a.user_id == b.user_id
    &&& a.username@ == b.username@
    &&& a.password_hash@ == b.password_hash@
    &&& a.created_at == b.created_at
}

/// Field-wise equality of video rows.
pub open spec fn video_eq(a: Video, b: Video) -> bool {
    &&& a.video_id == b.video_id
    &&& a.camera_id == b.camera_id
    &&& a.file_path@ == b.file_path@
    &&& a.start_time == b.start_time
    &&& a.end_time == b.end_time
    &&& a.file_size == b.file_size
}

/// Field-wise equality of per-user camera views.
pub open spec fn camera_view_eq(a: CameraPermissionView, b: CameraPermissionView) -> bool {
    &&& a.camera_id == b.camera_id
    &&& a.camera_name@ == b.camera_name@
    &&& option_string_eq(a.ip_address, b.ip_address)
    &&& a.can_view == b.can_view
    &&& a.can_control == b.can_control
}

/// Field-wise equality of frames (`==` on the struct would compare the
/// byte vectors as abstract values, not by their contents).
pub open spec fn frame_eq(a: ImageContainer, b: ImageContainer) -> bool {
    &&& a.camera_id == b.camera_id
    &&& a.timestamp == b.timestamp
    &&& a.image_bytes@ == b.image_bytes@
}

/// Field-wise equality of settings sent to firmware.
pub open spec fn setting_eq(a: CameraSettingNoMeta, b: CameraSettingNoMeta) -> bool {
    &&& a.flashlight_enabled == b.flashlight_enabled
    &&& a.resolution@ == b.resolution@
    &&& a.framerate == b.framerate
}

/// Field-wise equality of camera messages.
pub open spec fn camera_message_eq(a: CameraMessage, b: CameraMessage) -> bool {
    match (a, b) {
        (CameraMessage::SettingChanged(x), CameraMessage::SettingChanged(y)) => setting_eq(x, y),
        (CameraMessage::Restart, CameraMessage::Restart) => true,
        _ => false,
    }
}

/// Field-wise equality of control-rail payloads.
pub open spec fn api_message_eq(a: ApiChannelMessage, b: ApiChannelMessage) -> bool {
    match (a, b) {
        (
            ApiChannelMessage::CameraAction { camera_id: ca, message: ma },
            ApiChannelMessage::CameraAction { camera_id: cb, message: mb },
        ) => ca == cb && camera_message_eq(ma, mb),
        (ApiChannelMessage::CameraListChanged(x), ApiChannelMessage::CameraListChanged(y)) => x == y,
        (ApiChannelMessage::Initial, ApiChannelMessage::Initial) => true,
        _ => false,
    }
}

/// True of the frame-rail sentinel that subscribers must discard.
pub open spec fn is_sentinel_frame(f: ImageContainer) -> bool {
    f.camera_id == -1
}

/// The sentinel value the frame rail starts with.
pub fn sentinel_frame() -> (f: ImageContainer)
    ensures
        is_sentinel_frame(f),
        f.camera_id == -1,
        f.timestamp == -1,
        f.image_bytes@ =~= Seq::<u8>::empty(),
{
    ImageContainer { camera_id: -1, timestamp: -1, image_bytes: Vec::new() }
}

/// Pixel dimensions a resolution name stands for: `"SVGA"` is 800x600,
/// `"VGA"` is 640x480, and any other name falls back to 800x600.
pub open spec fn spec_resolution_dimensions(r: Seq<char>) -> (u32, u32) {
    if r == "VGA"@ {
        (640, 480)
    } else {
        (800, 600)
    }
}

/// True when two strings hold the same characters.
fn str_eq(a: &str, b: &str) -> (r: bool)
    ensures
        r == (a@ == b@),
{
    let a_owned: String = a.to_owned();
    let b_owned: String = b.to_owned();
    a_owned == b_owned
}

/// Maps a resolution name to pixel dimensions, per
/// `spec_resolution_dimensions`.
pub fn resolution_dimensions(r: &String) -> (d: (u32, u32))
    ensures
        d == spec_resolution_dimensions(r@),
{
    if str_eq(r.as_str(), "VGA") {
        (640, 480)
    } else {
        (800, 600)
    }
}

/// True when the resolution name is one the admin surface accepts.
pub open spec fn spec_valid_resolution(r: Seq<char>) -> bool {
    r == "SVGA"@ || r == "VGA"@
}

/// Decides `spec_valid_resolution`.
pub fn valid_resolution(r: &String) -> (b: bool)
    ensures
        b == spec_valid_resolution(r@),
{
    str_eq(r.as_str(), "SVGA") || str_eq(r.as_str(), "VGA")
}

/// True when the framerate is in the accepted range.
pub open spec fn spec_valid_framerate(f: i64) -> bool {
    1 <= f <= 60
}

/// Decides `spec_valid_framerate`.
pub fn valid_framerate(f: i64) -> (b: bool)
    ensures
        b == spec_valid_framerate(f),
{
    1 <= f && f <= 60
}

impl CameraSettingNoMeta {
    /// An equal copy (the derived clone says nothing in contracts).
    pub fn duplicate(&self) -> (r: Self)
        ensures
            setting_eq(r, *self),
    {
        CameraSettingNoMeta {
            flashlight_enabled: self.flashlight_enabled,
            resolution: self.resolution.clone(),
            framerate: self.framerate,
        }
    }
}

impl ImageContainer {
    /// An equal copy (the derived clone says nothing in contracts).
    pub fn duplicate(&self) -> (r: Self)
        ensures
            frame_eq(r, *self),
    {
        let mut bytes: Vec<u8> = Vec::new();
        bytes.extend_from_slice(self.image_bytes.as_slice());
        assert(bytes@ =~= self.image_bytes@);
        ImageContainer {
            camera_id: self.camera_id,
            timestamp: self.timestamp,
            image_bytes: bytes,
        }
    }
}

impl CameraMessage {
    /// An equal copy (the derived clone says nothing in contracts).
    pub fn duplicate(&self) -> (r: Self)
        ensures
            camera_message_eq(r, *self),
    {
        match self {
            CameraMessage::SettingChanged(s) => CameraMessage::SettingChanged(s.duplicate()),
            CameraMessage::Restart => CameraMessage::Restart,
        }
    }
}

impl CameraListChange {
    /// An equal copy (the derived clone says nothing in contracts).
    pub fn duplicate(&self) -> (r: Self)
        ensures
            r == *self,
    {
        match self {
            CameraListChange::Added { camera_id } => CameraListChange::Added { camera_id: *camera_id },
            CameraListChange::Removed { camera_id } => CameraListChange::Removed { camera_id: *camera_id },
            CameraListChange::Updated { camera_id } => CameraListChange::Updated { camera_id: *camera_id },
        }
    }
}

impl ApiChannelMessage {
    /// An equal copy (the derived clone says nothing in contracts).
    pub fn duplicate(&self) -> (r: Self)
        ensures
            api_message_eq(r, *self),
    {
        match self {
            ApiChannelMessage::CameraAction { camera_id, message } => ApiChannelMessage::CameraAction {
                camera_id: *camera_id,
                message: message.duplicate(),
            },
            ApiChannelMessage::CameraListChanged(c) => ApiChannelMessage::CameraListChanged(c.duplicate()),
            ApiChannelMessage::Initial => ApiChannelMessage::Initial,
        }
    }
}

/// An equal copy of an optional string.
fn duplicate_option_string(s: &Option<String>) -> (r: Option<String>)
    ensures
        option_string_eq(r, *s),
{
    match s {
        Some(x) => Some(x.clone()),
        None => None,
    }
}

impl Camera {
    /// An equal copy (the derived clone says nothing in contracts).
    pub fn duplicate(&self) -> (r: Self)
        ensures
            camera_eq(r, *self),
    {
        Camera {
            camera_id: self.camera_id,
            name: self.name.clone(),
            ip_address: duplicate_option_string(&self.ip_address),
            last_connected: self.last_connected,
            is_active: self.is_active,
        }
    }
}

impl CameraSetting {
    /// An equal copy (the derived clone says nothing in contracts).
    pub fn duplicate(&self) -> (r: Self)
        ensures
            camera_setting_eq(r, *self),
    {
        CameraSetting {
            setting_id: self.setting_id,
            camera_id: self.camera_id,
            flashlight_enabled: self.flashlight_enabled,
            resolution: self.resolution.clone(),
            framerate: self.framerate,
            last_modified: self.last_modified,
            modified_by: self.modified_by,
        }
    }

    /// The setting as sent to the camera firmware.
    pub fn without_meta(&self) -> (r: CameraSettingNoMeta)
        ensures
            r.flashlight_enabled == self.flashlight_enabled,
            r.resolution@ == self.resolution@,
            r.framerate == self.framerate,
    {
        CameraSettingNoMeta {
            flashlight_enabled: self.flashlight_enabled,
            resolution: self.resolution.clone(),
            framerate: self.framerate,
        }
    }
}

impl Video {
    /// An equal copy (the derived clone says nothing in contracts).
    pub fn duplicate(&self) -> (r: Self)
        ensures
            video_eq(r, *self),
    {
        Video {
            video_id: self.video_id,
            camera_id: self.camera_id,
            file_path: self.file_path.clone(),
            start_time: self.start_time,
            end_time: self.end_time,
            file_size: self.file_size,
        }
    }
}

impl User {
    /// An equal copy (the derived clone says nothing in contracts).
    pub fn duplicate(&self) -> (r: Self)
        ensures
            user_eq(r, *self),
    {
        User {
            user_id: self.user_id,
            username: self.username.clone(),
            password_hash: self.password_hash.clone(),
            created_at: self.created_at,
        }
    }

    /// The identity a login session is keyed by.
    pub fn id(&self) -> (r: i64)
        ensures
            r == self.user_id,
    {
        self.user_id
    }

    /// The bytes a login session authenticates against.  The password
    /// hash is used, so changing the password invalidates the session.
    pub fn session_auth_hash(&self) -> (r: &str)
        ensures
            r@ == self.password_hash@,
    {
        self.password_hash.as_str()
    }

    /// A copy safe to hand to clients: the password hash is replaced by
    /// a fixed marker.
    pub fn to_redacted_clone(&self) -> (r: Self)
        ensures
            r.user_id == self.user_id,
            r.username@ == self.username@,
            r.password_hash@ == "[redacted]"@,
            r.created_at == self.created_at,
    {
        User {
            user_id: self.user_id,
            username: self.username.clone(),
            password_hash: "[redacted]".to_owned(),
            created_at: self.created_at,
        }
    }
}

} // verus!

//! The admin command surface: the mutations the HTTP layer exposes.
//!
//! Each command validates authorization (most need the well-known
//! `admin` identity; setting edits need control rights on the target
//! camera) and its input, applies the change to the store, and returns
//! the control event to publish.  A failed command changes nothing and
//! publishes nothing: the returned event is the only one there is.

use vstd::prelude::*;
use vstd::utf8::encode_utf8;

use crate::store::Store;
use crate::store::has_camera;
use crate::store::has_permission;
use crate::store::has_permission_pair;
use crate::store::has_setting;
use crate::store::spec_can_control;
use crate::types::ApiChannelMessage;
use crate::types::CameraListChange;
use crate::types::CameraMessage;
use crate::types::CameraPermission;
use crate::types::CameraPermissionView;
use crate::types::CameraSetting;
use crate::types::CameraSettingNoMeta;
use crate::types::UpdatePermissionForm;
use crate::types::UpdateSettingsForm;
use crate::types::Camera;
use crate::types::User;
use crate::types::spec_valid_framerate;
use crate::types::spec_valid_resolution;

verus! {

/// What a failed command reports to the HTTP layer.
#[derive(Clone, Copy, Debug, PartialEq, Eq, Structural)]
pub enum ApiError {
    /// No authenticated user.
    Unauthorized,
    /// The caller lacks the right the command needs.
    Forbidden,
    /// The input fails validation.
    BadRequest,
    /// The target does not exist.
    NotFound,
    /// A unique column already holds the value.
    Conflict,
}

/// The well-known administrative identity.
pub open spec fn spec_is_admin(u: User) -> bool {
    u.username@ == "admin"@
}

/// True when two strings hold the same characters.
fn str_eq(a: &str, b: &str) -> (r: bool)
    ensures
        r == (a@ == b@),
{
    let a_owned: String = a.to_owned();
    let b_owned: String = b.to_owned();
    a_owned == b_owned
}

/// Decides `spec_is_admin`.
pub fn is_admin(u: &User) -> (r: bool)
    ensures
        r == spec_is_admin(*u),
{
    str_eq(u.username.as_str(), "admin")
}

/// Restarts a camera: an admin-only command.  It mutates nothing; on
/// success the returned `Restart` action is published to the control
/// rail.  Restarting a camera that does not exist fails and publishes
/// nothing.
pub fn restart_camera(store: &Store, actor: Option<&User>, camera_id: i64) -> (r: Result<
    ApiChannelMessage,
    ApiError,
>)
    ensures
        r == Err::<ApiChannelMessage, ApiError>(ApiError::Unauthorized) <==> actor is None,
        r == Err::<ApiChannelMessage, ApiError>(ApiError::Forbidden) <==> (actor matches Some(u)
            && !spec_is_admin(*u)),
        r == Err::<ApiChannelMessage, ApiError>(ApiError::NotFound) <==> (actor matches Some(u)
            && spec_is_admin(*u) && !has_camera(store.cameras(), camera_id)),
        r is Ok <==> (actor matches Some(u) && spec_is_admin(*u) && has_camera(
            store.cameras(),
            camera_id,
        )),
        r matches Ok(e) ==> e == (ApiChannelMessage::CameraAction {
            camera_id,
            message: CameraMessage::Restart,
        }),
{
    let user = match actor {
        Some(u) => u,
        None => {
            return Err(ApiError::Unauthorized);
        },
    };
    if !is_admin(user) {
        return Err(ApiError::Forbidden);
    }
    if store.get_camera(camera_id).is_none() {
        return Err(ApiError::NotFound);
    }
    Ok(ApiChannelMessage::CameraAction { camera_id, message: CameraMessage::Restart })
}

/// Removes a camera: an admin-only command.  On success the store has
/// cascaded (setting and permission rows gone, recordings unbound) and
/// the returned `Removed` delta is published.  Deleting a camera that
/// does not exist fails, changes nothing and publishes nothing.
pub fn delete_camera(store: &mut Store, actor: Option<&User>, camera_id: i64) -> (r: Result<
    ApiChannelMessage,
    ApiError,
>)
    requires
        old(store).wf(),
    ensures
        final(store).wf(),
        r == Err::<ApiChannelMessage, ApiError>(ApiError::Unauthorized) <==> actor is None,
        r == Err::<ApiChannelMessage, ApiError>(ApiError::Forbidden) <==> (actor matches Some(u)
            && !spec_is_admin(*u)),
        r == Err::<ApiChannelMessage, ApiError>(ApiError::NotFound) <==> (actor matches Some(u)
            && spec_is_admin(*u) && !has_camera(old(store).cameras(), camera_id)),
        r is Ok <==> (actor matches Some(u) && spec_is_admin(*u) && has_camera(
            old(store).cameras(),
            camera_id,
        )),
        r matches Ok(e) ==> e == ApiChannelMessage::CameraListChanged(
            CameraListChange::Removed { camera_id },
        ),
        r is Err ==> final(store).cameras() == old(store).cameras()
            && final(store).camera_settings() == old(store).camera_settings()
            && final(store).camera_permissions() == old(store).camera_permissions()
            && final(store).users() == old(store).users()
            && final(store).videos() == old(store).videos(),
        r is Ok ==> !has_camera(final(store).cameras(), camera_id),
        r is Ok ==> final(store).camera_permissions() == old(store).camera_permissions().filter(
            crate::store::not_for_camera(camera_id),
        ),
        r is Ok ==> !crate::store::has_setting_for_camera(
            final(store).camera_settings(),
            camera_id,
        ),
        final(store).users() == old(store).users(),
{
    let user = match actor {
        Some(u) => u,
        None => {
            return Err(ApiError::Unauthorized);
        },
    };
    if !is_admin(user) {
        return Err(ApiError::Forbidden);
    }
    match store.delete_camera(camera_id) {
        Ok(()) => Ok(
            ApiChannelMessage::CameraListChanged(CameraListChange::Removed { camera_id }),
        ),
        Err(_) => Err(ApiError::NotFound),
    }
}

/// Updates a permission row's rights: an admin-only command.  On
/// success the returned `Updated` delta is published, so viewer
/// sessions refresh their entitlements.  Updating a permission that
/// does not exist fails, changes nothing and publishes nothing.
pub fn update_permission(
    store: &mut Store,
    actor: Option<&User>,
    permission_id: i64,
    form: &UpdatePermissionForm,
) -> (r: Result<(CameraPermission, ApiChannelMessage), ApiError>)
    requires
        old(store).wf(),
    ensures
        final(store).wf(),
        r == Err::<(CameraPermission, ApiChannelMessage), ApiError>(ApiError::Unauthorized)
            <==> actor is None,
        r == Err::<(CameraPermission, ApiChannelMessage), ApiError>(ApiError::Forbidden) <==> (
        actor matches Some(u) && !spec_is_admin(*u)),
        r == Err::<(CameraPermission, ApiChannelMessage), ApiError>(ApiError::NotFound) <==> (
        actor matches Some(u) && spec_is_admin(*u) && !has_permission(
            old(store).camera_permissions(),
            permission_id,
        )),
        r is Ok <==> (actor matches Some(u) && spec_is_admin(*u) && has_permission(
            old(store).camera_permissions(),
            permission_id,
        )),
        r matches Ok(pe) ==> exists|i: int|
            0 <= i < old(store).camera_permissions().len()
                && #[trigger] old(store).camera_permissions()[i].permission_id == permission_id
                && pe.0 == (CameraPermission {
                permission_id,
                camera_id: old(store).camera_permissions()[i].camera_id,
                user_id: old(store).camera_permissions()[i].user_id,
                can_view: form.can_view,
                can_control: form.can_control,
            }) && final(store).camera_permissions() == old(store).camera_permissions().update(
                i,
                pe.0,
            ) && pe.1 == ApiChannelMessage::CameraListChanged(
                CameraListChange::Updated { camera_id: pe.0.camera_id },
            ),
        r is Err ==> final(store).camera_permissions() == old(store).camera_permissions(),
        final(store).cameras() == old(store).cameras(),
        final(store).camera_settings() == old(store).camera_settings(),
        final(store).users() == old(store).users(),
        final(store).videos() == old(store).videos(),
{
    let user = match actor {
        Some(u) => u,
        None => {
            return Err(ApiError::Unauthorized);
        },
    };
    if !is_admin(user) {
        return Err(ApiError::Forbidden);
    }
    let row = CameraPermission {
        permission_id,
        camera_id: 0,
        user_id: 0,
        can_view: form.can_view,
        can_control: form.can_control,
    };
    match store.update_camera_permission(row) {
        Ok(stored) => Ok(
            (
                stored,
                ApiChannelMessage::CameraListChanged(
                    CameraListChange::Updated { camera_id: stored.camera_id },
                ),
            ),
        ),
        Err(_) => Err(ApiError::NotFound),
    }
}

/// Updates a camera's setting: the caller needs control rights on the
/// camera.  Framerate outside 1..=60 or a resolution other than SVGA
/// and VGA is rejected, and a rejected update changes nothing and
/// publishes nothing.  Only the admin may change resolution and
/// framerate; other controllers change the flashlight alone.  On
/// success the new setting is stamped with the caller and the time, and
/// the returned `SettingChanged` action is published to the camera.
pub fn update_setting(
    store: &mut Store,
    actor: Option<&User>,
    setting_id: i64,
    form: &UpdateSettingsForm,
    now: i64,
) -> (r: Result<(CameraSetting, ApiChannelMessage), ApiError>)
    requires
        old(store).wf(),
    ensures
        final(store).wf(),
        r == Err::<(CameraSetting, ApiChannelMessage), ApiError>(ApiError::Unauthorized) <==> actor
            is None,
        r == Err::<(CameraSetting, ApiChannelMessage), ApiError>(ApiError::BadRequest) <==> (actor
            is Some && !(spec_valid_framerate(form.framerate) && spec_valid_resolution(
            form.resolution@,
        ))),
        r == Err::<(CameraSetting, ApiChannelMessage), ApiError>(ApiError::NotFound) <==> (actor
            is Some && spec_valid_framerate(form.framerate) && spec_valid_resolution(
            form.resolution@,
        ) && !has_setting(old(store).camera_settings(), setting_id)),
        r == Err::<(CameraSetting, ApiChannelMessage), ApiError>(ApiError::Forbidden) <==> (actor
            matches Some(u) && spec_valid_framerate(form.framerate) && spec_valid_resolution(
            form.resolution@,
        ) && exists|i: int|
            0 <= i < old(store).camera_settings().len()
                && #[trigger] old(store).camera_settings()[i].setting_id == setting_id
                && !spec_can_control(
                old(store).camera_permissions(),
                u.user_id,
                old(store).camera_settings()[i].camera_id,
            )),
        r is Err ==> final(store).camera_settings() == old(store).camera_settings(),
        r matches Ok(se) ==> (actor matches Some(u) ==> exists|i: int|
            {
                &&& 0 <= i < old(store).camera_settings().len()
                &&& #[trigger] old(store).camera_settings()[i].setting_id == setting_id
                &&& spec_can_control(
                    old(store).camera_permissions(),
                    u.user_id,
                    old(store).camera_settings()[i].camera_id,
                )
                &&& crate::types::camera_setting_eq(
                    se.0,
                    CameraSetting {
                        setting_id,
                        camera_id: old(store).camera_settings()[i].camera_id,
                        flashlight_enabled: form.flashlight_enabled,
                        resolution: if spec_is_admin(*u) {
                            form.resolution
                        } else {
                            old(store).camera_settings()[i].resolution
                        },
                        framerate: if spec_is_admin(*u) {
                            form.framerate
                        } else {
                            old(store).camera_settings()[i].framerate
                        },
                        last_modified: now,
                        modified_by: Some(u.user_id),
                    },
                )
                &&& final(store).camera_settings() == old(store).camera_settings().update(
                    i,
                    final(store).camera_settings()[i],
                )
                &&& crate::types::camera_setting_eq(final(store).camera_settings()[i], se.0)
                &&& se.1 == (ApiChannelMessage::CameraAction {
                    camera_id: se.0.camera_id,
                    message: CameraMessage::SettingChanged(
                        CameraSettingNoMeta {
                            flashlight_enabled: se.0.flashlight_enabled,
                            resolution: se.0.resolution,
                            framerate: se.0.framerate,
                        },
                    ),
                })
            }),
        r is Ok <==> (actor matches Some(u) && spec_valid_framerate(form.framerate)
            && spec_valid_resolution(form.resolution@) && has_setting(
            old(store).camera_settings(),
            setting_id,
        ) && exists|i: int|
            0 <= i < old(store).camera_settings().len()
                && #[trigger] old(store).camera_settings()[i].setting_id == setting_id
                && spec_can_control(
                old(store).camera_permissions(),
                u.user_id,
                old(store).camera_settings()[i].camera_id,
            )),
        final(store).cameras() == old(store).cameras(),
        final(store).camera_permissions() == old(store).camera_permissions(),
        final(store).users() == old(store).users(),
        final(store).videos() == old(store).videos(),
{
    let user = match actor {
        Some(u) => u,
        None => {
            return Err(ApiError::Unauthorized);
        },
    };
    if !(crate::types::valid_framerate(form.framerate) && crate::types::valid_resolution(
        &form.resolution,
    )) {
        return Err(ApiError::BadRequest);
    }
    let setting = match store.get_camera_setting(setting_id) {
        Some(s) => s,
        None => {
            return Err(ApiError::NotFound);
        },
    };
    let can_control = store.user_can_control(user.user_id, setting.camera_id);
    proof {
        // The setting row with this id is unique, so control rights on
        // the returned copy's camera settle rights on the stored row.
        let w = choose|w: int|
            0 <= w < store.camera_settings().len()
                && #[trigger] store.camera_settings()[w].setting_id == setting_id
                && crate::types::camera_setting_eq(setting, store.camera_settings()[w]);
        assert(forall|i: int|
            0 <= i < store.camera_settings().len()
                && #[trigger] store.camera_settings()[i].setting_id == setting_id ==> i == w);
    }
    if !can_control {
        return Err(ApiError::Forbidden);
    }
    let admin = is_admin(user);
    let new_row = CameraSetting {
        setting_id,
        camera_id: setting.camera_id,
        flashlight_enabled: form.flashlight_enabled,
        resolution: if admin {
            form.resolution.clone()
        } else {
            setting.resolution
        },
        framerate: if admin {
            form.framerate
        } else {
            setting.framerate
        },
        last_modified: now,
        modified_by: Some(user.user_id),
    };
    let result = store.update_camera_setting(new_row.duplicate());
    match result {
        Ok(()) => {},
        Err(_) => {
            proof {
                assert(false);
            }
        },
    }
    let event = ApiChannelMessage::CameraAction {
        camera_id: new_row.camera_id,
        message: CameraMessage::SettingChanged(
            CameraSettingNoMeta {
                flashlight_enabled: new_row.flashlight_enabled,
                resolution: new_row.resolution.clone(),
                framerate: new_row.framerate,
            },
        ),
    };
    Ok((new_row, event))
}

/// An enrolment address with a port: a dotted quad, one colon, and a
/// 16-bit port.
pub open spec fn spec_valid_endpoint(s: Seq<u8>) -> bool {
    exists|c: int|
        {
            &&& 0 <= c < s.len()
            &&& #[trigger] s[c] == 58
            &&& (forall|j: int| 0 <= j < s.len() && j != c ==> #[trigger] s[j] != 58)
            &&& crate::text::spec_valid_ipv4(s.subrange(0, c))
            &&& crate::text::parses_as_uint(s.subrange(c + 1, s.len() as int), 65535)
        }
}

/// Decides `spec_valid_endpoint`.
fn validate_endpoint(s: &[u8]) -> (r: bool)
    ensures
        r == spec_valid_endpoint(s@),
{
    let n = s.len();
    let mut colon: usize = n;
    let mut k: usize = 0;
    while k < n
        invariant
            0 <= k <= n == s@.len(),
            colon <= n,
            colon == n ==> forall|j: int| 0 <= j < k ==> #[trigger] s@[j] != 58,
            colon < n ==> colon < k && s@[colon as int] == 58 && (forall|j: int|
                0 <= j < k && j != colon ==> #[trigger] s@[j] != 58),
        decreases n - k,
    {
        if s[k] == 58 {
            if colon < n {
                proof {
                    assert forall|c: int|
                        0 <= c < s@.len() && #[trigger] s@[c] == 58 implies !(forall|j: int|
                        0 <= j < s@.len() && j != c ==> #[trigger] s@[j] != 58) by {
                        if c == colon {
                            assert(s@[k as int] == 58);
                        } else {
                            assert(s@[colon as int] == 58);
                        }
                    };
                }
                return false;
            }
            colon = k;
        }
        k = k + 1;
    }
    if colon == n {
        return false;
    }
    let ip = crate::text::copy_range(s, 0, colon);
    let port = crate::text::copy_range(s, colon + 1, n);
    crate::text::validate_ipv4(ip.as_slice()) && crate::text::parse_uint(
        port.as_slice(),
        65535,
    ).is_some()
}

/// Enrolment cannot proceed because a row already occupies what the
/// new camera would get: a setting row or a permission row already
/// carries the id the camera will be created under.
pub open spec fn spec_enroll_blocked(store: Store, actor_user_id: i64) -> bool {
    ||| crate::store::has_setting_for_camera(store.camera_settings(), store.next_camera_id())
    ||| has_permission_pair(store.camera_permissions(), store.next_camera_id(), actor_user_id)
    ||| exists|j: int|
        0 <= j < store.users().len() && has_permission_pair(
            store.camera_permissions(),
            store.next_camera_id(),
            (#[trigger] store.users()[j]).user_id,
        )
}

/// The enrolment form's address is acceptable: a bare dotted quad
/// (admitted from any port of that host) or a full `host:port`
/// endpoint.
pub open spec fn spec_valid_enroll_address(s: Seq<u8>) -> bool {
    crate::text::spec_valid_ipv4(s) || spec_valid_endpoint(s)
}

/// Enrolls a camera: an admin-only command.  The admission address must
/// be a dotted quad (any port of the host will be admitted) or a full
/// `quad:port` endpoint; that is the whole admission grammar, so a
/// literal IPv6 address is rejected here.  On success the camera row exists under a fresh id, with a
/// default setting (flashlight off, SVGA, 5 frames per second, stamped
/// with the caller), a controller permission row for the caller, a
/// zeroed permission row for every other existing user, and the
/// returned `Added` delta is published; the address the outer program
/// should introduce itself to is returned beside the camera.  A failed
/// enrolment changes nothing and publishes nothing.
#[verifier::rlimit(80)]
#[verifier::spinoff_prover]
pub fn create_camera(
    store: &mut Store,
    actor: Option<&User>,
    form: &crate::types::AddCameraForm,
    now: i64,
) -> (r: Result<(Camera, ApiChannelMessage, String), ApiError>)
    requires
        old(store).wf(),
        old(store).next_camera_id() < i64::MAX,
        old(store).next_setting_id() < i64::MAX,
        old(store).next_permission_id() + 1 + old(store).users().len() < i64::MAX,
    ensures
        final(store).wf(),
        r == Err::<(Camera, ApiChannelMessage, String), ApiError>(ApiError::Unauthorized) <==> actor
            is None,
        r == Err::<(Camera, ApiChannelMessage, String), ApiError>(ApiError::Forbidden) <==> (actor
            matches Some(u) && !spec_is_admin(*u)),
        r == Err::<(Camera, ApiChannelMessage, String), ApiError>(ApiError::BadRequest) <==> (actor
            matches Some(u) && spec_is_admin(*u) && !spec_valid_enroll_address(
            encode_utf8(form.address@),
        )),
        r == Err::<(Camera, ApiChannelMessage, String), ApiError>(ApiError::Conflict) <==> (actor
            matches Some(u) && spec_is_admin(*u) && spec_valid_enroll_address(
            encode_utf8(form.address@),
        ) && spec_enroll_blocked(*old(store), u.user_id)),
        r is Err ==> final(store).cameras() == old(store).cameras()
            && final(store).camera_settings() == old(store).camera_settings()
            && final(store).camera_permissions() == old(store).camera_permissions()
            && final(store).users() == old(store).users()
            && final(store).videos() == old(store).videos(),
        r matches Ok(t) ==> (actor matches Some(u) ==> {
            let id = old(store).next_camera_id();
            &&& t.0.camera_id == id
            &&& t.0.name@ == form.name@
            &&& t.0.last_connected is None
            &&& t.0.is_active
            &&& (t.0.ip_address matches Some(key) && key@ == (
                if crate::text::spec_valid_ipv4(encode_utf8(form.address@)) {
                    form.address@ + ":*"@
                } else {
                    form.address@
                }))
            &&& final(store).cameras().len() == old(store).cameras().len() + 1
            &&& final(store).cameras().subrange(0, old(store).cameras().len() as int)
                == old(store).cameras()
            &&& crate::types::camera_eq(final(store).cameras().last(), t.0)
            &&& final(store).camera_settings().len() == old(store).camera_settings().len() + 1
            &&& final(store).camera_settings().subrange(
                0,
                old(store).camera_settings().len() as int,
            ) == old(store).camera_settings()
            &&& {
                let srow = final(store).camera_settings().last();
                srow.camera_id == id && !srow.flashlight_enabled && srow.resolution@ == "SVGA"@
                    && srow.framerate == 5 && srow.last_modified == now && srow.modified_by
                    == Some(u.user_id)
            }
            &&& final(store).camera_permissions().subrange(
                0,
                old(store).camera_permissions().len() as int,
            ) == old(store).camera_permissions()
            &&& spec_can_control(final(store).camera_permissions(), u.user_id, id)
            &&& (forall|j: int|
                0 <= j < old(store).users().len() ==> has_permission_pair(
                    final(store).camera_permissions(),
                    id,
                    (#[trigger] old(store).users()[j]).user_id,
                ))
            &&& (forall|p: int|
                old(store).camera_permissions().len() <= p
                    < final(store).camera_permissions().len() ==> {
                    let row = #[trigger] final(store).camera_permissions()[p];
                    row.camera_id == id && (row.user_id != u.user_id ==> !row.can_view
                        && !row.can_control)
                })
            &&& t.1 == ApiChannelMessage::CameraListChanged(CameraListChange::Added { camera_id: id })
            &&& t.2@ == "http://"@ + form.address@ + (
                if crate::text::spec_valid_ipv4(encode_utf8(form.address@)) {
                    ":80"@
                } else {
                    Seq::<char>::empty()
                }) + "/mdns_connect"@
        }),
        r is Ok <==> (actor matches Some(u) && spec_is_admin(*u) && spec_valid_enroll_address(
            encode_utf8(form.address@),
        ) && !spec_enroll_blocked(*old(store), u.user_id)),
        final(store).users() == old(store).users(),
        final(store).videos() == old(store).videos(),
{
    let user = match actor {
        Some(u) => u,
        None => {
            return Err(ApiError::Unauthorized);
        },
    };
    if !is_admin(user) {
        return Err(ApiError::Forbidden);
    }
    let addr_bytes = crate::text::string_bytes(form.address.as_str());
    let bare = crate::text::validate_ipv4(addr_bytes.as_slice());
    if !bare && !validate_endpoint(addr_bytes.as_slice()) {
        return Err(ApiError::BadRequest);
    }
    let new_id = store.peek_next_camera_id();
    if store.get_setting_for_camera(new_id).is_some() {
        return Err(ApiError::Conflict);
    }
    if store.get_permission_pair(new_id, user.user_id).is_some() {
        return Err(ApiError::Conflict);
    }
    let user_total = store.user_count();
    let mut j: usize = 0;
    while j < user_total
        invariant
            *store == *old(store),
            old(store).wf(),
            actor == Some(user),
            spec_is_admin(*user),
            spec_valid_enroll_address(encode_utf8(form.address@)),
            0 <= j <= user_total == store.users().len(),
            forall|k: int|
                0 <= k < j ==> !has_permission_pair(
                    store.camera_permissions(),
                    store.next_camera_id(),
                    (#[trigger] store.users()[k]).user_id,
                ),
        decreases user_total - j,
    {
        let u = store.user_at(j);
        if store.get_permission_pair(store.peek_next_camera_id(), u.user_id).is_some() {
            proof {
                assert(store.wf());
            }
            return Err(ApiError::Conflict);
        }
        j = j + 1;
    }
    // Build the admission key and the introduction address.
    proof {
        reveal_strlit(":*");
        reveal_strlit("http://");
        reveal_strlit(":80");
        reveal_strlit("/mdns_connect");
    }
    let mut key = form.address.clone();
    let mut url: String = "http://".to_owned();
    url.append(form.address.as_str());
    if bare {
        key.append(":*");
        url.append(":80");
    }
    url.append("/mdns_connect");

    let cam_row = Camera {
        camera_id: 0,
        name: form.name.clone(),
        ip_address: Some(key),
        last_connected: None,
        is_active: true,
    };
    let id = store.create_camera(cam_row);
    let mut key_copy = form.address.clone();
    if bare {
        key_copy.append(":*");
    }
    let camera = Camera {
        camera_id: id,
        name: form.name.clone(),
        ip_address: Some(key_copy),
        last_connected: None,
        is_active: true,
    };
    let setting = CameraSetting {
        setting_id: 0,
        camera_id: id,
        flashlight_enabled: false,
        resolution: "SVGA".to_owned(),
        framerate: 5,
        last_modified: now,
        modified_by: Some(user.user_id),
    };
    match store.create_camera_setting(setting) {
        Ok(_) => {},
        Err(_) => {
            proof {
                assert(false);
            }
        },
    }
    let admin_perm = CameraPermission {
        permission_id: 0,
        camera_id: id,
        user_id: user.user_id,
        can_view: true,
        can_control: true,
    };
    match store.create_camera_permission(admin_perm) {
        Ok(_) => {},
        Err(_) => {
            proof {
                assert(false);
            }
        },
    }
    let ghost old_perm_len = old(store).camera_permissions().len() as int;
    let ghost cam_snap = store.cameras();
    let ghost set_snap = store.camera_settings();
    proof {
        assert(store.camera_permissions()[old_perm_len].camera_id == id);
        assert(store.camera_permissions()[old_perm_len].user_id == user.user_id);
        assert(store.camera_permissions()[old_perm_len].can_control);
        assert(store.camera_permissions()[old_perm_len].can_view);
    }
    let mut i: usize = 0;
    while i < user_total
        invariant
            store.wf(),
            0 <= i <= user_total == store.users().len(),
            store.users() == old(store).users(),
            store.cameras() == cam_snap,
            store.camera_settings() == set_snap,
            store.videos() == old(store).videos(),
            id == old(store).next_camera_id(),
            old_perm_len == old(store).camera_permissions().len() as int,
            old(store).next_permission_id() + 1 + old(store).users().len() < i64::MAX,
            store.camera_permissions().len() >= old_perm_len + 1,
            store.next_permission_id() - old(store).next_permission_id()
                == store.camera_permissions().len() - old_perm_len,
            store.camera_permissions().len() <= old_perm_len + 1 + i,
            store.camera_permissions().subrange(0, old_perm_len) == old(
                store,
            ).camera_permissions(),
            store.camera_permissions()[old_perm_len].camera_id == id,
            store.camera_permissions()[old_perm_len].user_id == user.user_id,
            store.camera_permissions()[old_perm_len].can_view,
            store.camera_permissions()[old_perm_len].can_control,
            forall|p: int|
                old_perm_len <= p < store.camera_permissions().len() ==> {
                    let row = #[trigger] store.camera_permissions()[p];
                    row.camera_id == id && (row.user_id == user.user_id ==> row.can_view
                        && row.can_control) && (row.user_id != user.user_id ==> !row.can_view
                        && !row.can_control) && (row.user_id == user.user_id || exists|k: int|
                        0 <= k < i && (#[trigger] store.users()[k]).user_id == row.user_id)
                },
            forall|k: int|
                0 <= k < user_total ==> !has_permission_pair(
                    old(store).camera_permissions(),
                    old(store).next_camera_id(),
                    (#[trigger] old(store).users()[k]).user_id,
                ),
            forall|k: int|
                0 <= k < i ==> has_permission_pair(
                    store.camera_permissions(),
                    id,
                    (#[trigger] store.users()[k]).user_id,
                ),
        decreases user_total - i,
    {
        let u = store.user_at(i);
        let ghost perms_before = store.camera_permissions();
        if u.user_id != user.user_id {
            proof {
                assert(!has_permission_pair(store.camera_permissions(), id, u.user_id)) by {
                    if has_permission_pair(store.camera_permissions(), id, u.user_id) {
                        let w = choose|w: int|
                            0 <= w < store.camera_permissions().len()
                                && #[trigger] store.camera_permissions()[w].camera_id == id
                                && store.camera_permissions()[w].user_id == u.user_id;
                        if w < old_perm_len {
                            assert(store.camera_permissions().subrange(0, old_perm_len)[w]
                                == store.camera_permissions()[w]);
                            assert(has_permission_pair(
                                old(store).camera_permissions(),
                                old(store).next_camera_id(),
                                store.users()[i as int].user_id,
                            ));
                        } else {
                            let row = store.camera_permissions()[w];
                            assert(row.user_id == user.user_id || exists|k: int|
                                0 <= k < i && (#[trigger] store.users()[k]).user_id == row.user_id);
                            let k = choose|k: int|
                                0 <= k < i && (#[trigger] store.users()[k]).user_id == row.user_id;
                            assert(store.users()[k].user_id == store.users()[i as int].user_id);
                        }
                    }
                };
            }
            let row = CameraPermission {
                permission_id: 0,
                camera_id: id,
                user_id: u.user_id,
                can_view: false,
                can_control: false,
            };
            match store.create_camera_permission(row) {
                Ok(_) => {},
                Err(_) => {
                    proof {
                        assert(false);
                    }
                },
            }
            proof {
                assert(store.camera_permissions().subrange(0, old_perm_len)
                    =~= perms_before.subrange(0, old_perm_len));
                assert(forall|p: int|
                    0 <= p < perms_before.len() ==> store.camera_permissions()[p]
                        == #[trigger] perms_before[p]);
                assert(store.camera_permissions()[perms_before.len() as int].user_id == u.user_id);
                assert(store.camera_permissions()[perms_before.len() as int].camera_id == id);
                assert(has_permission_pair(
                    store.camera_permissions(),
                    id,
                    store.users()[i as int].user_id,
                ));
            }
        } else {
            proof {
                assert(has_permission_pair(
                    store.camera_permissions(),
                    id,
                    store.users()[i as int].user_id,
                )) by {
                    assert(store.camera_permissions()[old_perm_len].camera_id == id);
                };
            }
        }
        i = i + 1;
    }
    let event = ApiChannelMessage::CameraListChanged(CameraListChange::Added { camera_id: id });
    Ok((camera, event, url))
}

/// A username the hub accepts: ASCII letters and digits only (the
/// empty name passes too; stored uniqueness is what actually
/// distinguishes users).
pub open spec fn spec_valid_username(s: Seq<u8>) -> bool {
    forall|i: int|
        0 <= i < s.len() ==> {
            let b = #[trigger] s[i];
            (48 <= b <= 57) || (65 <= b <= 90) || (97 <= b <= 122)
        }
}

/// A password the hub accepts: 1 to 254 bytes, no whitespace.
pub open spec fn spec_valid_password(s: Seq<u8>) -> bool {
    &&& 1 <= s.len() <= 254
    &&& forall|i: int| 0 <= i < s.len() ==> !crate::text::is_ascii_ws(#[trigger] s[i])
}

/// Decides `spec_valid_username` over the string's bytes.
fn valid_username(s: &String) -> (r: bool)
    ensures
        r == spec_valid_username(encode_utf8(s@)),
{
    let bytes = crate::text::string_bytes(s.as_str());
    let n = bytes.len();
    let mut i: usize = 0;
    while i < n
        invariant
            0 <= i <= n == bytes@.len(),
            bytes@ == encode_utf8(s@),
            forall|j: int|
                0 <= j < i ==> {
                    let b = #[trigger] bytes@[j];
                    (48 <= b <= 57) || (65 <= b <= 90) || (97 <= b <= 122)
                },
        decreases n - i,
    {
        let b = bytes[i];
        let ok = (48 <= b && b <= 57) || (65 <= b && b <= 90) || (97 <= b && b <= 122);
        if !ok {
            return false;
        }
        i = i + 1;
    }
    true
}

/// Decides `spec_valid_password` over the string's bytes.
fn valid_password(s: &String) -> (r: bool)
    ensures
        r == spec_valid_password(encode_utf8(s@)),
{
    let bytes = crate::text::string_bytes(s.as_str());
    let n = bytes.len();
    if n < 1 || n > 254 {
        return false;
    }
    let mut i: usize = 0;
    while i < n
        invariant
            0 <= i <= n == bytes@.len(),
            1 <= n <= 254,
            bytes@ == encode_utf8(s@),
            forall|j: int| 0 <= j < i ==> !crate::text::is_ascii_ws(#[trigger] bytes@[j]),
        decreases n - i,
    {
        let b = bytes[i];
        if b == 32 || b == 9 || b == 10 || b == 13 {
            return false;
        }
        i = i + 1;
    }
    true
}

/// User creation cannot proceed because a permission row already
/// carries the id the new user would get.
pub open spec fn spec_user_blocked(store: Store) -> bool {
    exists|j: int|
        0 <= j < store.cameras().len() && has_permission_pair(
            store.camera_permissions(),
            (#[trigger] store.cameras()[j]).camera_id,
            store.next_user_id(),
        )
}

/// The password a user form actually registers: the well-known guest
/// account always keeps its fixed guest password.
pub open spec fn spec_effective_password(form: crate::types::UserForm) -> Seq<char> {
    if form.username@ == "guest"@ {
        "hunter42"@
    } else {
        form.password@
    }
}

/// Creates a user: an admin-only command.  The username must be ASCII
/// letters and digits and free; the password (fixed for the guest
/// account) must be 1 to 254 bytes without whitespace.  On success the
/// user row exists under a fresh id, its stored hash verifies the
/// registered password, and a zeroed permission row exists for every
/// camera.  A failed command changes nothing.
#[verifier::rlimit(80)]
#[verifier::spinoff_prover]
pub fn create_user(
    store: &mut Store,
    actor: Option<&User>,
    form: &crate::types::UserForm,
    now: i64,
) -> (r: Result<User, ApiError>)
    requires
        old(store).wf(),
        old(store).next_user_id() < i64::MAX,
        old(store).next_permission_id() + old(store).cameras().len() < i64::MAX,
    ensures
        final(store).wf(),
        r == Err::<User, ApiError>(ApiError::Unauthorized) <==> actor is None,
        r == Err::<User, ApiError>(ApiError::Forbidden) <==> (actor matches Some(u)
            && !spec_is_admin(*u)),
        r == Err::<User, ApiError>(ApiError::BadRequest) <==> (actor matches Some(u)
            && spec_is_admin(*u) && !(spec_valid_username(encode_utf8(form.username@))
            && spec_valid_password(encode_utf8(spec_effective_password(*form))))),
        r is Err ==> final(store).cameras() == old(store).cameras()
            && final(store).camera_settings() == old(store).camera_settings()
            && final(store).camera_permissions() == old(store).camera_permissions()
            && final(store).users() == old(store).users()
            && final(store).videos() == old(store).videos(),
        r is Ok <==> (actor matches Some(u) && spec_is_admin(*u) && spec_valid_username(
            encode_utf8(form.username@),
        ) && spec_valid_password(encode_utf8(spec_effective_password(*form)))
            && !crate::store::has_username(old(store).users(), form.username@)
            && !spec_user_blocked(*old(store))),
        r matches Ok(u) ==> {
            let id = old(store).next_user_id();
            &&& u.user_id == id
            &&& u.username@ == form.username@
            &&& u.created_at == now
            &&& crate::auth::password_verifies(spec_effective_password(*form), u.password_hash@)
            &&& final(store).users().len() == old(store).users().len() + 1
            &&& final(store).users().subrange(0, old(store).users().len() as int)
                == old(store).users()
            &&& crate::types::user_eq(final(store).users().last(), u)
            &&& final(store).camera_permissions().subrange(
                0,
                old(store).camera_permissions().len() as int,
            ) == old(store).camera_permissions()
            &&& (forall|j: int|
                0 <= j < old(store).cameras().len() ==> has_permission_pair(
                    final(store).camera_permissions(),
                    (#[trigger] old(store).cameras()[j]).camera_id,
                    id,
                ))
            &&& (forall|p: int|
                old(store).camera_permissions().len() <= p
                    < final(store).camera_permissions().len() ==> {
                    let row = #[trigger] final(store).camera_permissions()[p];
                    row.user_id == id && !row.can_view && !row.can_control
                })
        },
        final(store).cameras() == old(store).cameras(),
        final(store).camera_settings() == old(store).camera_settings(),
        final(store).videos() == old(store).videos(),
{
    let user = match actor {
        Some(u) => u,
        None => {
            return Err(ApiError::Unauthorized);
        },
    };
    if !is_admin(user) {
        return Err(ApiError::Forbidden);
    }
    let is_guest = str_eq(form.username.as_str(), "guest");
    let password: String = if is_guest {
        "hunter42".to_owned()
    } else {
        form.password.clone()
    };
    if !(valid_username(&form.username) && valid_password(&password)) {
        return Err(ApiError::BadRequest);
    }
    if store.get_user_by_username(&form.username).is_some() {
        return Err(ApiError::Conflict);
    }
    let new_id = store.peek_next_user_id();
    let camera_total = store.camera_count();
    let mut j: usize = 0;
    while j < camera_total
        invariant
            *store == *old(store),
            old(store).wf(),
            actor == Some(user),
            spec_is_admin(*user),
            spec_valid_username(encode_utf8(form.username@)),
            spec_valid_password(encode_utf8(spec_effective_password(*form))),
            new_id == store.next_user_id(),
            0 <= j <= camera_total == store.cameras().len(),
            forall|k: int|
                0 <= k < j ==> !has_permission_pair(
                    store.camera_permissions(),
                    (#[trigger] store.cameras()[k]).camera_id,
                    store.next_user_id(),
                ),
        decreases camera_total - j,
    {
        let c = store.camera_at(j);
        if store.get_permission_pair(c.camera_id, new_id).is_some() {
            proof {
                assert(store.wf());
                assert(store.cameras()[j as int].camera_id == c.camera_id);
            }
            return Err(ApiError::Conflict);
        }
        j = j + 1;
    }
    let hash = crate::auth::hash_password(password.as_str());
    let row = User {
        user_id: 0,
        username: form.username.clone(),
        password_hash: hash.clone(),
        created_at: now,
    };
    let id = match store.create_user(row) {
        Ok(id) => id,
        Err(_) => {
            proof {
                assert(false);
            }
            return Err(ApiError::Conflict);
        },
    };
    let created = User { user_id: id, username: form.username.clone(), password_hash: hash, created_at: now };
    let ghost old_perm_len = old(store).camera_permissions().len() as int;
    let ghost user_snap = store.users();
    let mut i: usize = 0;
    while i < camera_total
        invariant
            store.wf(),
            0 <= i <= camera_total == store.cameras().len(),
            store.cameras() == old(store).cameras(),
            store.users() == user_snap,
            store.camera_settings() == old(store).camera_settings(),
            store.videos() == old(store).videos(),
            id == old(store).next_user_id(),
            old_perm_len == old(store).camera_permissions().len() as int,
            old(store).next_permission_id() + old(store).cameras().len() < i64::MAX,
            store.next_permission_id() - old(store).next_permission_id()
                == store.camera_permissions().len() - old_perm_len,
            old_perm_len <= store.camera_permissions().len() <= old_perm_len + i,
            store.camera_permissions().subrange(0, old_perm_len) == old(
                store,
            ).camera_permissions(),
            forall|p: int|
                old_perm_len <= p < store.camera_permissions().len() ==> {
                    let row = #[trigger] store.camera_permissions()[p];
                    row.user_id == id && !row.can_view && !row.can_control && (exists|k: int|
                        0 <= k < i && (#[trigger] store.cameras()[k]).camera_id == row.camera_id)
                },
            forall|k: int|
                0 <= k < camera_total ==> !has_permission_pair(
                    old(store).camera_permissions(),
                    (#[trigger] old(store).cameras()[k]).camera_id,
                    old(store).next_user_id(),
                ),
            forall|k: int|
                0 <= k < i ==> has_permission_pair(
                    store.camera_permissions(),
                    (#[trigger] store.cameras()[k]).camera_id,
                    id,
                ),
        decreases camera_total - i,
    {
        let c = store.camera_at(i);
        let ghost perms_before = store.camera_permissions();
        let already = store.get_permission_pair(c.camera_id, id).is_some();
        if !already {
            let row = CameraPermission {
                permission_id: 0,
                camera_id: c.camera_id,
                user_id: id,
                can_view: false,
                can_control: false,
            };
            match store.create_camera_permission(row) {
                Ok(_) => {},
                Err(_) => {
                    proof {
                        assert(false);
                    }
                },
            }
            proof {
                assert(store.camera_permissions().subrange(0, old_perm_len)
                    =~= perms_before.subrange(0, old_perm_len));
                assert(forall|p: int|
                    0 <= p < perms_before.len() ==> store.camera_permissions()[p]
                        == #[trigger] perms_before[p]);
                assert(store.camera_permissions()[perms_before.len() as int].user_id == id);
                assert(store.camera_permissions()[perms_before.len() as int].camera_id
                    == c.camera_id);
                assert(store.cameras()[i as int].camera_id == c.camera_id);
                assert(has_permission_pair(
                    store.camera_permissions(),
                    store.cameras()[i as int].camera_id,
                    id,
                ));
            }
        } else {
            proof {
                assert(store.cameras()[i as int].camera_id == c.camera_id);
            }
        }
        i = i + 1;
    }
    Ok(created)
}

/// Removes a user: an admin-only command.  On success the store has
/// cascaded (the user's permission rows are gone and settings they last
/// modified lose the attribution).  Deleting a user that does not exist
/// fails and changes nothing.
pub fn delete_user(store: &mut Store, actor: Option<&User>, user_id: i64) -> (r: Result<
    i64,
    ApiError,
>)
    requires
        old(store).wf(),
    ensures
        final(store).wf(),
        r == Err::<i64, ApiError>(ApiError::Unauthorized) <==> actor is None,
        r == Err::<i64, ApiError>(ApiError::Forbidden) <==> (actor matches Some(u) && !spec_is_admin(
            *u,
        )),
        r == Err::<i64, ApiError>(ApiError::NotFound) <==> (actor matches Some(u) && spec_is_admin(
            *u,
        ) && !crate::store::has_user(old(store).users(), user_id)),
        r is Ok <==> (actor matches Some(u) && spec_is_admin(*u) && crate::store::has_user(
            old(store).users(),
            user_id,
        )),
        r matches Ok(v) ==> v == user_id,
        r is Err ==> final(store).users() == old(store).users()
            && final(store).camera_permissions() == old(store).camera_permissions()
            && final(store).camera_settings() == old(store).camera_settings(),
        r is Ok ==> !crate::store::has_user(final(store).users(), user_id),
        r is Ok ==> final(store).camera_permissions() == old(store).camera_permissions().filter(
            crate::store::not_for_user(user_id),
        ),
        final(store).cameras() == old(store).cameras(),
        final(store).videos() == old(store).videos(),
{
    let user = match actor {
        Some(u) => u,
        None => {
            return Err(ApiError::Unauthorized);
        },
    };
    if !is_admin(user) {
        return Err(ApiError::Forbidden);
    }
    match store.delete_user(user_id) {
        Ok(()) => Ok(user_id),
        Err(_) => Err(ApiError::NotFound),
    }
}

/// The name an update actually stores: the well-known admin and guest
/// accounts keep their names; everyone else takes the form's.
pub open spec fn spec_new_username(stored_name: Seq<char>, form_name: Seq<char>) -> Seq<char> {
    if stored_name == "admin"@ || stored_name == "guest"@ {
        stored_name
    } else {
        form_name
    }
}

/// Renames a user and/or resets their password: an admin-only command.
/// The well-known admin and guest accounts keep their names.  An empty
/// password leaves the stored hash alone; any other password must pass
/// validation and is hashed afresh.  A failed command changes nothing.
pub fn update_user(
    store: &mut Store,
    actor: Option<&User>,
    user_id: i64,
    form: &crate::types::UserForm,
) -> (r: Result<User, ApiError>)
    requires
        old(store).wf(),
    ensures
        final(store).wf(),
        r == Err::<User, ApiError>(ApiError::Unauthorized) <==> actor is None,
        r == Err::<User, ApiError>(ApiError::Forbidden) <==> (actor matches Some(u)
            && !spec_is_admin(*u)),
        r == Err::<User, ApiError>(ApiError::NotFound) <==> (actor matches Some(u) && spec_is_admin(
            *u,
        ) && !crate::store::has_user(old(store).users(), user_id)),
        r == Err::<User, ApiError>(ApiError::BadRequest) <==> (actor matches Some(u)
            && spec_is_admin(*u) && crate::store::has_user(old(store).users(), user_id) && !(
        spec_valid_username(encode_utf8(form.username@)) && (form.password@.len() == 0
            || spec_valid_password(encode_utf8(form.password@))))),
        r is Ok <==> (actor matches Some(u) && spec_is_admin(*u) && spec_valid_username(
            encode_utf8(form.username@),
        ) && (form.password@.len() == 0 || spec_valid_password(encode_utf8(form.password@)))
            && exists|i: int|
            {
                &&& 0 <= i < old(store).users().len()
                &&& #[trigger] old(store).users()[i].user_id == user_id
                &&& !(exists|j: int|
                    0 <= j < old(store).users().len()
                        && (#[trigger] old(store).users()[j]).username@ == spec_new_username(
                        old(store).users()[i].username@,
                        form.username@,
                    ) && old(store).users()[j].user_id != user_id)
            }),
        r is Err ==> final(store).users() == old(store).users(),
        r matches Ok(u) ==> exists|i: int|
            {
                &&& 0 <= i < old(store).users().len()
                &&& #[trigger] old(store).users()[i].user_id == user_id
                &&& u.user_id == user_id
                &&& u.username@ == (
                if old(store).users()[i].username@ == "admin"@ || old(store).users()[i].username@
                    == "guest"@ {
                    old(store).users()[i].username@
                } else {
                    form.username@
                })
                &&& (form.password@.len() == 0 ==> u.password_hash@ == old(
                    store,
                ).users()[i].password_hash@)
                &&& (form.password@.len() > 0 ==> crate::auth::password_verifies(
                    form.password@,
                    u.password_hash@,
                ))
                &&& u.created_at == old(store).users()[i].created_at
                &&& final(store).users().len() == old(store).users().len()
                &&& (forall|j: int|
                    0 <= j < final(store).users().len() && j != i
                        ==> final(store).users()[j] == old(store).users()[j])
                &&& crate::types::user_eq(final(store).users()[i], u)
            },
        final(store).cameras() == old(store).cameras(),
        final(store).camera_settings() == old(store).camera_settings(),
        final(store).camera_permissions() == old(store).camera_permissions(),
        final(store).videos() == old(store).videos(),
{
    let user = match actor {
        Some(u) => u,
        None => {
            return Err(ApiError::Unauthorized);
        },
    };
    if !is_admin(user) {
        return Err(ApiError::Forbidden);
    }
    let target = match store.get_user(user_id) {
        Some(t) => t,
        None => {
            return Err(ApiError::NotFound);
        },
    };
    if !valid_username(&form.username) {
        return Err(ApiError::BadRequest);
    }
    let keep_name = str_eq(target.username.as_str(), "admin") || str_eq(
        target.username.as_str(),
        "guest",
    );
    let username: String = if keep_name {
        target.username.clone()
    } else {
        form.username.clone()
    };
    let password_hash: String = if form.password.as_str().is_empty() {
        target.password_hash.clone()
    } else {
        if !valid_password(&form.password) {
            return Err(ApiError::BadRequest);
        }
        crate::auth::hash_password(form.password.as_str())
    };
    let updated = User { user_id, username, password_hash, created_at: target.created_at };
    let ghost pre = *store;
    proof {
        // The target row is unique, so the stored name the update keys
        // on is the looked-up copy's name.
        let it = choose|it: int|
            0 <= it < pre.users().len() && #[trigger] pre.users()[it].user_id == user_id
                && crate::types::user_eq(target, pre.users()[it]);
        assert(forall|i: int|
            0 <= i < pre.users().len() && #[trigger] pre.users()[i].user_id == user_id ==> i
                == it);
        assert(updated.username@ == spec_new_username(pre.users()[it].username@, form.username@));
    }
    match store.update_user(updated.duplicate()) {
        Ok(()) => {
            proof {
                assert(pre.users() == old(store).users());
            }
            Ok(updated)
        },
        Err(_) => Err(ApiError::Conflict),
    }
}

/// What `GET /api/` returns: the caller with the password hash
/// redacted, and the caller's camera list.
pub fn protected_view(store: &Store, actor: Option<&User>) -> (r: Result<
    (User, Vec<CameraPermissionView>),
    ApiError,
>)
    requires
        store.wf(),
    ensures
        r is Ok <==> actor is Some,
        r matches Ok(t) ==> (actor matches Some(u) ==> {
            &&& t.0.user_id == u.user_id
            &&& t.0.username@ == u.username@
            &&& t.0.password_hash@ == "[redacted]"@
            &&& forall|k: int|
                0 <= k < t.1@.len() ==> #[trigger] crate::store::accessible_entry(
                    store.cameras(),
                    store.camera_permissions(),
                    u.user_id,
                    t.1@[k],
                )
            &&& (forall|i: int|
                0 <= i < store.cameras().len() && (#[trigger] store.cameras()[i]).is_active
                    && has_permission_pair(
                    store.camera_permissions(),
                    store.cameras()[i].camera_id,
                    u.user_id,
                ) ==> exists|k: int|
                    0 <= k < t.1@.len() && #[trigger] t.1@[k].camera_id
                        == store.cameras()[i].camera_id)
            &&& (forall|k1: int, k2: int, i1: int, i2: int|
                0 <= k1 < k2 < t.1@.len() && 0 <= i1 < store.cameras().len() && 0 <= i2
                    < store.cameras().len() && (#[trigger] store.cameras()[i1]).camera_id == (
                #[trigger] t.1@[k1]).camera_id && (#[trigger] store.cameras()[i2]).camera_id == (
                #[trigger] t.1@[k2]).camera_id ==> i1 < i2)
        }),
{
    let user = match actor {
        Some(u) => u,
        None => {
            return Err(ApiError::Unauthorized);
        },
    };
    let cameras = store.list_accessible_to_user(user.user_id);
    Ok((user.to_redacted_clone(), cameras))
}

/// What `GET /api/cameras` returns: the caller's camera list.
pub fn cameras_view(store: &Store, actor: Option<&User>) -> (r: Result<
    Vec<CameraPermissionView>,
    ApiError,
>)
    requires
        store.wf(),
    ensures
        r is Ok <==> actor is Some,
        r matches Ok(v) ==> (actor matches Some(u) ==> {
            &&& (forall|k: int|
                0 <= k < v@.len() ==> #[trigger] crate::store::accessible_entry(
                    store.cameras(),
                    store.camera_permissions(),
                    u.user_id,
                    v@[k],
                ))
            &&& (forall|i: int|
                0 <= i < store.cameras().len() && (#[trigger] store.cameras()[i]).is_active
                    && has_permission_pair(
                    store.camera_permissions(),
                    store.cameras()[i].camera_id,
                    u.user_id,
                ) ==> exists|k: int|
                    0 <= k < v@.len() && #[trigger] v@[k].camera_id
                        == store.cameras()[i].camera_id)
            &&& (forall|k1: int, k2: int, i1: int, i2: int|
                0 <= k1 < k2 < v@.len() && 0 <= i1 < store.cameras().len() && 0 <= i2
                    < store.cameras().len() && (#[trigger] store.cameras()[i1]).camera_id == (
                #[trigger] v@[k1]).camera_id && (#[trigger] store.cameras()[i2]).camera_id == (
                #[trigger] v@[k2]).camera_id ==> i1 < i2)
        }),
{
    let user = match actor {
        Some(u) => u,
        None => {
            return Err(ApiError::Unauthorized);
        },
    };
    Ok(store.list_accessible_to_user(user.user_id))
}

/// What `GET /api/cameras/{id}/videos` returns: the camera's
/// recordings, for a caller entitled to see the camera.
pub fn videos_for_camera(store: &Store, actor: Option<&User>, camera_id: i64) -> (r: Result<
    Vec<crate::types::VideoCameraView>,
    ApiError,
>)
    requires
        store.wf(),
    ensures
        r == Err::<Vec<crate::types::VideoCameraView>, ApiError>(ApiError::Unauthorized) <==> actor
            is None,
        r == Err::<Vec<crate::types::VideoCameraView>, ApiError>(ApiError::Forbidden) <==> (actor
            matches Some(u) && !crate::store::spec_visible(
            store.cameras(),
            store.camera_permissions(),
            u.user_id,
            camera_id,
        )),
        r is Ok <==> (actor matches Some(u) && crate::store::spec_visible(
            store.cameras(),
            store.camera_permissions(),
            u.user_id,
            camera_id,
        )),
        r matches Ok(v) ==> forall|k: int|
            0 <= k < v@.len() ==> #[trigger] crate::store::video_entry(
                store.cameras(),
                store.videos(),
                camera_id,
                v@[k],
            ),
        r matches Ok(v) ==> (forall|j: int|
            0 <= j < store.videos().len() && #[trigger] store.videos()[j].camera_id == Some(
                camera_id,
            ) ==> exists|k: int|
                0 <= k < v@.len() && #[trigger] v@[k].video_id == store.videos()[j].video_id),
        r matches Ok(v) ==> (forall|k1: int, k2: int, j1: int, j2: int|
            0 <= k1 < k2 < v@.len() && 0 <= j1 < store.videos().len() && 0 <= j2
                < store.videos().len() && (#[trigger] store.videos()[j1]).video_id == (
            #[trigger] v@[k1]).video_id && (#[trigger] store.videos()[j2]).video_id == (
            #[trigger] v@[k2]).video_id ==> j1 < j2),
{
    let user = match actor {
        Some(u) => u,
        None => {
            return Err(ApiError::Unauthorized);
        },
    };
    let visible = match store.get_permission_pair(camera_id, user.user_id) {
        Some(p) => p.can_view && store.camera_is_active(camera_id),
        None => false,
    };
    proof {
        if visible {
            assert(crate::store::spec_visible(
                store.cameras(),
                store.camera_permissions(),
                user.user_id,
                camera_id,
            ));
        } else {
            if crate::store::spec_visible(
                store.cameras(),
                store.camera_permissions(),
                user.user_id,
                camera_id,
            ) {
                let w = choose|w: int|
                    0 <= w < store.camera_permissions().len()
                        && #[trigger] store.camera_permissions()[w].camera_id == camera_id
                        && store.camera_permissions()[w].user_id == user.user_id
                        && store.camera_permissions()[w].can_view;
                assert(has_permission_pair(store.camera_permissions(), camera_id, user.user_id));
            }
        }
    }
    if !visible {
        return Err(ApiError::Forbidden);
    }
    proof {
        // A visible camera exists, so the store's completeness clause
        // is unconditional here.
        assert(crate::store::has_camera(store.cameras(), camera_id));
    }
    Ok(store.list_videos_for_camera(camera_id))
}

/// A faithful permission listing of one camera: every entry a true
/// join, every row of the camera with an existing user present, and
/// entries in row order (which also rules duplicates out).
pub open spec fn spec_permission_listing(
    store: Store,
    camera_id: i64,
    v: Seq<crate::types::CameraPermissionUserView>,
) -> bool {
    &&& (forall|k: int|
        0 <= k < v.len() ==> #[trigger] crate::store::permission_user_entry(
            store.camera_permissions(),
            store.users(),
            camera_id,
            v[k],
        ))
    &&& (forall|j: int|
        0 <= j < store.camera_permissions().len()
            && #[trigger] store.camera_permissions()[j].camera_id == camera_id
            && crate::store::has_user(store.users(), store.camera_permissions()[j].user_id)
            ==> exists|k: int|
            0 <= k < v.len() && #[trigger] v[k].permission_id
                == store.camera_permissions()[j].permission_id)
    &&& (forall|k1: int, k2: int, j1: int, j2: int|
        0 <= k1 < k2 < v.len() && 0 <= j1 < store.camera_permissions().len() && 0 <= j2
            < store.camera_permissions().len()
            && (#[trigger] store.camera_permissions()[j1]).permission_id == (
        #[trigger] v[k1]).permission_id
            && (#[trigger] store.camera_permissions()[j2]).permission_id == (
        #[trigger] v[k2]).permission_id ==> j1 < j2)
}

/// What `GET /api/cameras/{id}/permissions` returns (admin only): the
/// camera's permission rows with usernames.
#[verifier::rlimit(60)]
#[verifier::spinoff_prover]
pub fn camera_permissions_view(store: &Store, actor: Option<&User>, camera_id: i64) -> (r: Result<
    Vec<crate::types::CameraPermissionUserView>,
    ApiError,
>)
    requires
        store.wf(),
    ensures
        r is Ok <==> (actor matches Some(u) && spec_is_admin(*u)),
        r matches Ok(v) ==> spec_permission_listing(*store, camera_id, v@),
{
    let user = match actor {
        Some(u) => u,
        None => {
            return Err(ApiError::Unauthorized);
        },
    };
    if !is_admin(user) {
        return Err(ApiError::Forbidden);
    }
    let rows = store.list_permissions_for_camera(camera_id);
    proof {
        assert(spec_permission_listing(*store, camera_id, rows@));
    }
    Ok(rows)
}

/// What `GET /api/cameras/{id}/settings` returns: the camera's current
/// setting row, for any authenticated caller.
pub fn camera_settings_view(store: &Store, actor: Option<&User>, camera_id: i64) -> (r: Result<
    CameraSetting,
    ApiError,
>)
    ensures
        r == Err::<CameraSetting, ApiError>(ApiError::Unauthorized) <==> actor is None,
        r is Ok <==> (actor is Some && crate::store::has_setting_for_camera(
            store.camera_settings(),
            camera_id,
        )),
        r matches Ok(s) ==> s.camera_id == camera_id && exists|i: int|
            0 <= i < store.camera_settings().len()
                && #[trigger] store.camera_settings()[i].camera_id == camera_id
                && crate::types::camera_setting_eq(s, store.camera_settings()[i]),
{
    if actor.is_none() {
        return Err(ApiError::Unauthorized);
    }
    match store.get_setting_for_camera(camera_id) {
        Some(s) => Ok(s),
        None => Err(ApiError::NotFound),
    }
}

/// What `GET /api/users` returns (admin only): every user row.
pub fn users_view(store: &Store, actor: Option<&User>) -> (r: Result<Vec<User>, ApiError>)
    ensures
        r is Ok <==> (actor matches Some(u) && spec_is_admin(*u)),
        r matches Ok(v) ==> v@.len() == store.users().len() && forall|i: int|
            0 <= i < v@.len() ==> crate::types::user_eq(#[trigger] v@[i], store.users()[i]),
{
    let user = match actor {
        Some(u) => u,
        None => {
            return Err(ApiError::Unauthorized);
        },
    };
    if !is_admin(user) {
        return Err(ApiError::Forbidden);
    }
    Ok(store.get_all_users())
}

/// Who may attach to the discovered-services stream: only the
/// well-known admin identity.  Service discovery itself belongs to the
/// outer program.
pub fn discovery_access(actor: Option<&User>) -> (r: Result<(), ApiError>)
    ensures
        r == Err::<(), ApiError>(ApiError::Unauthorized) <==> actor is None,
        r is Ok <==> (actor matches Some(u) && spec_is_admin(*u)),
        r == Err::<(), ApiError>(ApiError::Forbidden) <==> (actor matches Some(u) && !spec_is_admin(
            *u,
        )),
{
    let user = match actor {
        Some(u) => u,
        None => {
            return Err(ApiError::Unauthorized);
        },
    };
    if !is_admin(user) {
        return Err(ApiError::Forbidden);
    }
    Ok(())
}

/// What `GET /api/videos/{id}` serves: the recording's row, exactly
/// when it exists, is bound to a camera, and the caller may see that
/// camera; the outer program streams the file at the row's path.
pub fn video_view(store: &Store, actor: Option<&User>, video_id: i64) -> (r: Result<
    crate::types::Video,
    ApiError,
>)
    requires
        store.wf(),
    ensures
        r == Err::<crate::types::Video, ApiError>(ApiError::Unauthorized) <==> actor is None,
        r is Ok <==> (actor matches Some(u) && exists|i: int|
            0 <= i < store.videos().len() && (#[trigger] store.videos()[i]).video_id == video_id
                && (store.videos()[i].camera_id matches Some(c) && crate::store::spec_visible(
                store.cameras(),
                store.camera_permissions(),
                u.user_id,
                c,
            ))),
        r == Err::<crate::types::Video, ApiError>(ApiError::Forbidden) <==> (actor matches Some(u)
            && exists|i: int|
            0 <= i < store.videos().len() && (#[trigger] store.videos()[i]).video_id == video_id
                && (store.videos()[i].camera_id matches Some(c) && !crate::store::spec_visible(
                store.cameras(),
                store.camera_permissions(),
                u.user_id,
                c,
            ))),
        r == Err::<crate::types::Video, ApiError>(ApiError::NotFound) <==> (actor is Some && (
        !crate::store::has_video(store.videos(), video_id) || exists|i: int|
            0 <= i < store.videos().len() && (#[trigger] store.videos()[i]).video_id == video_id
                && store.videos()[i].camera_id is None)),
        r matches Ok(v) ==> v.video_id == video_id && exists|i: int|
            0 <= i < store.videos().len() && #[trigger] store.videos()[i].video_id == video_id
                && crate::types::video_eq(v, store.videos()[i]),
        r matches Ok(v) ==> (actor matches Some(u) ==> (v.camera_id matches Some(c)
            && crate::store::spec_visible(
            store.cameras(),
            store.camera_permissions(),
            u.user_id,
            c,
        ))),
{
    let user = match actor {
        Some(u) => u,
        None => {
            return Err(ApiError::Unauthorized);
        },
    };
    let video = match store.get_video(video_id) {
        Some(v) => v,
        None => {
            return Err(ApiError::NotFound);
        },
    };
    proof {
        // The row with this id is unique, so what the copy shows of its
        // camera binding settles it for the stored row.
        let w = choose|w: int|
            0 <= w < store.videos().len() && #[trigger] store.videos()[w].video_id == video_id
                && crate::types::video_eq(video, store.videos()[w]);
        assert(forall|i: int|
            0 <= i < store.videos().len() && #[trigger] store.videos()[i].video_id == video_id
                ==> i == w);
    }
    let camera_id = match video.camera_id {
        Some(c) => c,
        None => {
            return Err(ApiError::NotFound);
        },
    };
    let visible = match store.get_permission_pair(camera_id, user.user_id) {
        Some(p) => p.can_view && store.camera_is_active(camera_id),
        None => false,
    };
    proof {
        if !visible {
            if crate::store::spec_visible(
                store.cameras(),
                store.camera_permissions(),
                user.user_id,
                camera_id,
            ) {
                let pw = choose|pw: int|
                    0 <= pw < store.camera_permissions().len()
                        && #[trigger] store.camera_permissions()[pw].camera_id == camera_id
                        && store.camera_permissions()[pw].user_id == user.user_id
                        && store.camera_permissions()[pw].can_view;
                assert(has_permission_pair(store.camera_permissions(), camera_id, user.user_id));
            }
        }
    }
    if !visible {
        return Err(ApiError::Forbidden);
    }
    Ok(video)
}

} // verus!

//! The session supervisor: peer classification and the per-session
//! task graph.
//!
//! A connecting peer's first message classifies it: the text `camera`
//! means a camera admitted by its exact `host:port` endpoint, the text
//! `camera_any_port` a camera admitted by `host:*`, any other text a
//! viewer bound to the authenticated user, and a close ends the session
//! before anything is spawned.  A classified session owns a small fixed
//! task graph; when any task exits, the supervisor cancels the rest,
//! drains the recorder so the video file is finalized, and closes the
//! peer channel.

use vstd::prelude::*;

use crate::store::Store;
use crate::store::has_camera_with_address;
use crate::store::has_setting_for_camera;
use crate::store::spec_visible;
use crate::text::dec_chars;
use crate::text::u64_to_string;
use crate::types::CameraSettingNoMeta;
use crate::types::ImageContainer;
use crate::viewer::EntitlementSnapshot;

verus! {

/// One message from the peer, as the supervisor and the inbound task
/// see it.
pub enum PeerMessage {
    Text(String),
    Binary(Vec<u8>),
    Ping(Vec<u8>),
    Pong(Vec<u8>),
    Close,
}

/// What a peer's first message makes it.
#[derive(Clone, Copy, Debug, PartialEq, Eq, Structural)]
pub enum PeerClass {
    /// A camera admitted by its exact `host:port` endpoint.
    CameraExact,
    /// A camera admitted by `host:*`, any port of the host.
    CameraAnyPort,
    /// A human viewer, bound to an authenticated user.
    Viewer,
}

/// The classification the first message dictates: `None` means the peer
/// closed and the session ends before any task is spawned.
pub open spec fn spec_classify(msg: PeerMessage) -> Option<PeerClass> {
    match msg {
        PeerMessage::Close => None,
        PeerMessage::Text(t) => {
            if t@ == "camera"@ {
                Some(PeerClass::CameraExact)
            } else if t@ == "camera_any_port"@ {
                Some(PeerClass::CameraAnyPort)
            } else {
                Some(PeerClass::Viewer)
            }
        },
        _ => Some(PeerClass::Viewer),
    }
}

/// True when two strings hold the same characters.
fn str_eq(a: &str, b: &str) -> (r: bool)
    ensures
        r == (a@ == b@),
{
    let a_owned: String = a.to_owned();
    let b_owned: String = b.to_owned();
    a_owned == b_owned
}

/// Classifies a peer by its first message, per `spec_classify`.
pub fn classify_first_message(msg: &PeerMessage) -> (r: Option<PeerClass>)
    ensures
        r == spec_classify(*msg),
{
    match msg {
        PeerMessage::Close => None,
        PeerMessage::Text(t) => {
            if str_eq(t.as_str(), "camera") {
                Some(PeerClass::CameraExact)
            } else if str_eq(t.as_str(), "camera_any_port") {
                Some(PeerClass::CameraAnyPort)
            } else {
                Some(PeerClass::Viewer)
            }
        },
        _ => Some(PeerClass::Viewer),
    }
}

/// The admission key a camera is looked up by: `host:port` for an
/// exact-endpoint camera, `host:*` for a wildcard-port one.
pub open spec fn spec_admission_key(host: Seq<char>, port: u16, any_port: bool) -> Seq<char> {
    if any_port {
        host + seq![':'] + seq!['*']
    } else {
        host + seq![':'] + dec_chars(port as nat)
    }
}

/// Builds the admission key, per `spec_admission_key`.
pub fn admission_key(host: &String, port: u16, any_port: bool) -> (r: String)
    ensures
        r@ == spec_admission_key(host@, port, any_port),
{
    let mut key = host.clone();
    key.append(":");
    proof {
        reveal_strlit(":");
        reveal_strlit("*");
        assert(":"@ =~= seq![':']);
        assert("*"@ =~= seq!['*']);
    }
    if any_port {
        key.append("*");
    } else {
        let digits = u64_to_string(port as u64);
        key.append(digits.as_str());
    }
    key
}

/// Why a session ends at establishment, before any task is spawned.
#[derive(Clone, Copy, Debug, PartialEq, Eq, Structural)]
pub enum SessionError {
    /// The peer closed (or errored) before classifying itself.
    PeerClosed,
    /// A camera's admission key matches no stored camera.
    CameraUnknown,
    /// An admitted camera has no setting row to boot from.
    SettingMissing,
    /// A viewer peer carries no authenticated user.
    Unauthenticated,
}

/// The sibling tasks of one session, and the peer channel they share.
/// The supervisor spawns them at establishment and clears them all at
/// termination.
pub struct SessionTasks {
    /// Reads peer messages; publishes camera frames to the frame rail.
    pub inbound: bool,
    /// Viewer sessions only: relays entitled frames to the peer.
    pub sender: bool,
    /// Camera sessions only: persists the camera's frames to disk.
    pub recorder: bool,
    /// Listens on the control rail for both roles.
    pub control: bool,
    /// The peer channel is open.
    pub channel_open: bool,
}

/// What a session is, once classified and admitted.
pub enum SessionRole {
    /// A camera session: its camera and the setting it boots from.
    Camera { camera_id: i64, initial_setting: CameraSettingNoMeta },
    /// A viewer session: its user and entitlement snapshot.
    Viewer { user_id: i64, entitlements: EntitlementSnapshot },
}

/// One established session: its role and its task graph.
pub struct Session {
    pub role: SessionRole,
    pub tasks: SessionTasks,
}

impl Session {
    /// The task graph a fresh session of this role owns: every session
    /// reads its peer and listens for control events; exactly camera
    /// sessions record; exactly viewer sessions relay frames.
    pub open spec fn tasks_spawned(&self) -> bool {
        &&& self.tasks.inbound
        &&& self.tasks.control
        &&& self.tasks.channel_open
        &&& self.tasks.recorder == (self.role is Camera)
        &&& self.tasks.sender == (self.role is Viewer)
    }

    /// Nothing of the session remains: no task scheduled, peer channel
    /// closed.
    pub open spec fn cleaned_up(&self) -> bool {
        &&& !self.tasks.inbound
        &&& !self.tasks.sender
        &&& !self.tasks.recorder
        &&& !self.tasks.control
        &&& !self.tasks.channel_open
    }

    /// Tears the session down, whatever state it is in: aborts every
    /// sibling task (the recorder is drained first, by
    /// `recorder_finalize`) and closes the peer channel.
    pub fn terminate(&mut self)
        ensures
            final(self).cleaned_up(),
    {
        self.tasks.inbound = false;
        self.tasks.sender = false;
        self.tasks.recorder = false;
        self.tasks.control = false;
        self.tasks.channel_open = false;
    }

    /// What the inbound task does with one peer message, per
    /// `inbound_step`'s contract: camera binary frames are stamped and
    /// published to the frame rail, a close stops the session, and
    /// everything else is ignored (viewers' binary messages included).
    pub fn inbound_step(&self, msg: PeerMessage, now: i64) -> (a: InboundAction)
        ensures
            msg is Close ==> a is Stop,
            msg matches PeerMessage::Binary(b) ==> (self.role matches SessionRole::Camera {
                camera_id,
                ..
            } ==> (a matches InboundAction::PublishFrame(f) && f.camera_id == camera_id
                && f.timestamp == now && f.image_bytes == b)),
            !(msg is Close) && !(msg is Binary && self.role is Camera) ==> a is Ignore,
    {
        match msg {
            PeerMessage::Close => InboundAction::Stop,
            PeerMessage::Binary(b) => {
                match &self.role {
                    SessionRole::Camera { camera_id, .. } => {
                        InboundAction::PublishFrame(
                            ImageContainer {
                                camera_id: *camera_id,
                                timestamp: now,
                                image_bytes: b,
                            },
                        )
                    },
                    SessionRole::Viewer { .. } => InboundAction::Ignore,
                }
            },
            _ => InboundAction::Ignore,
        }
    }
}

/// What the inbound task does with one peer message.
pub enum InboundAction {
    /// Publish this frame to the frame rail.
    PublishFrame(ImageContainer),
    /// The peer is gone: signal session termination.
    Stop,
    /// Do nothing.
    Ignore,
}

/// Classifies the peer and establishes the session: looks an admitted
/// camera up by its admission key and loads its setting, or binds a
/// viewer to the authenticated user and its entitlements.  Any failure
/// ends the session without spawning a task and without creating a
/// `Video` row.
#[verifier::rlimit(60)]
#[verifier::spinoff_prover]
pub fn establish_session(
    store: &Store,
    first: &PeerMessage,
    peer_host: &String,
    peer_port: u16,
    authenticated_user: Option<i64>,
) -> (r: Result<Session, SessionError>)
    requires
        store.wf(),
    ensures
        r matches Err(e) ==> match e {
            SessionError::PeerClosed => spec_classify(*first) is None,
            SessionError::CameraUnknown => (spec_classify(*first) == Some(PeerClass::CameraExact)
                || spec_classify(*first) == Some(PeerClass::CameraAnyPort))
                && !has_camera_with_address(
                store.cameras(),
                spec_admission_key(
                    peer_host@,
                    peer_port,
                    spec_classify(*first) == Some(PeerClass::CameraAnyPort),
                ),
            ),
            SessionError::SettingMissing => (spec_classify(*first) == Some(PeerClass::CameraExact)
                || spec_classify(*first) == Some(PeerClass::CameraAnyPort)) && exists|id: i64|
                camera_admitted(
                    store.cameras(),
                    spec_admission_key(
                        peer_host@,
                        peer_port,
                        spec_classify(*first) == Some(PeerClass::CameraAnyPort),
                    ),
                    id,
                ) && !(#[trigger] has_setting_for_camera(store.camera_settings(), id)),
            SessionError::Unauthenticated => spec_classify(*first) == Some(PeerClass::Viewer)
                && authenticated_user is None,
        },
        r matches Ok(s) ==> s.tasks_spawned(),
        r matches Ok(s) ==> (s.role matches SessionRole::Camera { camera_id, initial_setting }
            ==> (spec_classify(*first) == Some(PeerClass::CameraExact) || spec_classify(*first)
                == Some(PeerClass::CameraAnyPort)) && camera_admitted(
                store.cameras(),
                spec_admission_key(
                    peer_host@,
                    peer_port,
                    spec_classify(*first) == Some(PeerClass::CameraAnyPort),
                ),
                camera_id,
            ) && setting_loaded(store.camera_settings(), camera_id, initial_setting)),
        r matches Ok(s) ==> (s.role matches SessionRole::Viewer { user_id, entitlements }
            ==> spec_classify(*first) == Some(PeerClass::Viewer) && authenticated_user == Some(
                user_id,
            ) && (forall|c: i64|
                #[trigger] entitlements.entitled(c) <==> spec_visible(
                    store.cameras(),
                    store.camera_permissions(),
                    user_id,
                    c,
                ))),
        r is Ok <==> match spec_classify(*first) {
            None => false,
            Some(PeerClass::Viewer) => authenticated_user is Some,
            Some(cls) => exists|id: i64|
                #[trigger] camera_admitted(
                    store.cameras(),
                    spec_admission_key(peer_host@, peer_port, cls is CameraAnyPort),
                    id,
                ) && has_setting_for_camera(store.camera_settings(), id),
        },
        r is Ok ==> spec_classify(*first) is Some,
{
    let class = match classify_first_message(first) {
        Some(c) => c,
        None => {
            return Err(SessionError::PeerClosed);
        },
    };
    match class {
        PeerClass::Viewer => {
            let user_id = match authenticated_user {
                Some(u) => u,
                None => {
                    return Err(SessionError::Unauthenticated);
                },
            };
            let entitlements = EntitlementSnapshot::from_store(store, user_id);
            Ok(
                Session {
                    role: SessionRole::Viewer { user_id, entitlements },
                    tasks: SessionTasks {
                        inbound: true,
                        sender: true,
                        recorder: false,
                        control: true,
                        channel_open: true,
                    },
                },
            )
        },
        _ => {
            let any_port = match class {
                PeerClass::CameraAnyPort => true,
                _ => false,
            };
            let key = admission_key(peer_host, peer_port, any_port);
            let camera = match store.get_camera_by_address(&key) {
                Some(c) => c,
                None => {
                    proof {
                        assert(any_port == (spec_classify(*first) == Some(
                            PeerClass::CameraAnyPort,
                        )));
                    }
                    return Err(SessionError::CameraUnknown);
                },
            };
            let setting = match store.get_setting_for_camera(camera.camera_id) {
                Some(s) => s,
                None => {
                    proof {
                        assert(camera_admitted(
                            store.cameras(),
                            spec_admission_key(peer_host@, peer_port, any_port),
                            camera.camera_id,
                        ));
                    }
                    return Err(SessionError::SettingMissing);
                },
            };
            let initial_setting = setting.without_meta();
            proof {
                assert(any_port == (spec_classify(*first) == Some(PeerClass::CameraAnyPort)));
                assert(camera_admitted(
                    store.cameras(),
                    spec_admission_key(peer_host@, peer_port, any_port),
                    camera.camera_id,
                ));
                assert(setting_loaded(
                    store.camera_settings(),
                    camera.camera_id,
                    initial_setting,
                ));
            }
            Ok(
                Session {
                    role: SessionRole::Camera { camera_id: camera.camera_id, initial_setting },
                    tasks: SessionTasks {
                        inbound: true,
                        sender: false,
                        recorder: true,
                        control: true,
                        channel_open: true,
                    },
                },
            )
        },
    }
}

/// The first camera row carrying the admission key has this id: the
/// camera the supervisor admits under the key.
pub open spec fn camera_admitted(cameras: Seq<crate::types::Camera>, key: Seq<char>, id: i64) -> bool {
    exists|i: int|
        0 <= i < cameras.len() && #[trigger] crate::store::camera_has_address(cameras[i], key)
            && cameras[i].camera_id == id && (forall|j: int|
            0 <= j < i ==> !crate::store::camera_has_address(#[trigger] cameras[j], key))
}

/// The boot setting equals the camera's stored setting row, without its
/// bookkeeping columns.
pub open spec fn setting_loaded(
    settings: Seq<crate::types::CameraSetting>,
    camera_id: i64,
    s: CameraSettingNoMeta,
) -> bool {
    exists|i: int|
        0 <= i < settings.len() && #[trigger] settings[i].camera_id == camera_id
            && settings[i].flashlight_enabled == s.flashlight_enabled && settings[i].resolution@
            == s.resolution@ && settings[i].framerate == s.framerate
}

} // verus!

//! The control listener task's decisions.
//!
//! Every session runs a control listener on the control rail.  A camera
//! session forwards the actions addressed to its camera and tears the
//! session down when its camera is removed; a viewer session relays
//! camera-list deltas (and then refreshes its entitlements).  Everything
//! else, the sentinel included, is ignored.

use vstd::prelude::*;

use crate::types::ApiChannelMessage;
use crate::types::CameraListChange;
use crate::types::CameraMessage;

verus! {

/// What a camera session's control listener does with one event.
pub enum CameraControlAction {
    /// Send this message to the camera peer.
    Forward(CameraMessage),
    /// Return an error so the supervisor tears the session down.
    Teardown,
    /// Do nothing.
    Ignore,
}

/// What a viewer session's control listener does with one event.
pub enum ViewerControlAction {
    /// Relay this delta to the viewer peer, then refresh the viewer's
    /// entitlement snapshot from the store.
    RelayAndRefresh(CameraListChange),
    /// Do nothing.
    Ignore,
}

/// The action a camera session with this id takes on this event:
/// actions addressed to the camera are forwarded, removal of the camera
/// tears the session down, and everything else is ignored.
pub open spec fn spec_camera_control_step(self_camera_id: i64, event: ApiChannelMessage) -> CameraControlAction {
    match event {
        ApiChannelMessage::CameraAction { camera_id, message } => {
            if camera_id == self_camera_id {
                CameraControlAction::Forward(message)
            } else {
                CameraControlAction::Ignore
            }
        },
        ApiChannelMessage::CameraListChanged(change) => {
            match change {
                CameraListChange::Removed { camera_id } => {
                    if camera_id == self_camera_id {
                        CameraControlAction::Teardown
                    } else {
                        CameraControlAction::Ignore
                    }
                },
                _ => CameraControlAction::Ignore,
            }
        },
        ApiChannelMessage::Initial => CameraControlAction::Ignore,
    }
}

/// Decides one control event for a camera session, per
/// `spec_camera_control_step`.
pub fn camera_control_step(self_camera_id: i64, event: ApiChannelMessage) -> (a: CameraControlAction)
    ensures
        a == spec_camera_control_step(self_camera_id, event),
{
    match event {
        ApiChannelMessage::CameraAction { camera_id, message } => {
            if camera_id == self_camera_id {
                CameraControlAction::Forward(message)
            } else {
                CameraControlAction::Ignore
            }
        },
        ApiChannelMessage::CameraListChanged(change) => {
            match change {
                CameraListChange::Removed { camera_id } => {
                    if camera_id == self_camera_id {
                        CameraControlAction::Teardown
                    } else {
                        CameraControlAction::Ignore
                    }
                },
                _ => CameraControlAction::Ignore,
            }
        },
        ApiChannelMessage::Initial => CameraControlAction::Ignore,
    }
}

/// The action a viewer session takes on this event: any camera-list
/// delta is relayed and triggers an entitlement refresh; camera actions
/// and the sentinel are ignored.
pub open spec fn spec_viewer_control_step(event: ApiChannelMessage) -> ViewerControlAction {
    match event {
        ApiChannelMessage::CameraListChanged(change) => ViewerControlAction::RelayAndRefresh(change),
        _ => ViewerControlAction::Ignore,
    }
}

/// Decides one control event for a viewer session, per
/// `spec_viewer_control_step`.
pub fn viewer_control_step(event: ApiChannelMessage) -> (a: ViewerControlAction)
    ensures
        a == spec_viewer_control_step(event),
{
    match event {
        ApiChannelMessage::CameraListChanged(change) => ViewerControlAction::RelayAndRefresh(change),
        _ => ViewerControlAction::Ignore,
    }
}

/// Control fan-out: a camera action addressed to camera `c` is
/// forwarded, unchanged, by the control listener of every camera
/// session whose camera id is `c`, and by no other session; it never
/// tears a session down.
pub proof fn lemma_control_fanout(c: i64, m: CameraMessage)
    ensures
        forall|self_id: i64|
            #[trigger] spec_camera_control_step(self_id, ApiChannelMessage::CameraAction { camera_id: c, message: m })
                == if self_id == c {
                    CameraControlAction::Forward(m)
                } else {
                    CameraControlAction::Ignore
                },
        forall|e: ApiChannelMessage|
            #[trigger] spec_viewer_control_step(e) is RelayAndRefresh ==> e is CameraListChanged,
{
}

/// Removal teardown, camera side: a `Removed` delta for camera `c`
/// makes every camera session with that id tear down, and leaves every
/// other camera session alone.
pub proof fn lemma_removal_teardown(c: i64)
    ensures
        forall|self_id: i64|
            #[trigger] spec_camera_control_step(
                self_id,
                ApiChannelMessage::CameraListChanged(CameraListChange::Removed { camera_id: c }),
            ) == if self_id == c {
                CameraControlAction::Teardown
            } else {
                CameraControlAction::Ignore
            },
        spec_viewer_control_step(
            ApiChannelMessage::CameraListChanged(CameraListChange::Removed { camera_id: c }),
        ) == ViewerControlAction::RelayAndRefresh(CameraListChange::Removed { camera_id: c }),
{
}

} // verus!

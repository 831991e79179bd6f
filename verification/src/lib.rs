//! Core of a multi-tenant home-surveillance hub.
//!
//! Lightweight cameras and human viewers connect to the hub over a
//! bidirectional message channel.  The hub classifies each peer, fans
//! camera frames out to entitled viewers, records them to disk, and
//! delivers control events (setting changes, restarts, camera-list
//! deltas) to the right peers.  This crate holds the decision logic of
//! that router: the data model and its invariants, the latest-wins
//! rails, the per-session task graph, the admin command surface, and
//! the wire encodings, each with a verified contract.

pub mod admin;
pub mod auth;
pub mod codec;
pub mod control;
pub mod firmware;
pub mod rail;
pub mod recorder;
pub mod session;
pub mod store;
pub mod text;
pub mod types;
pub mod viewer;

pub use types::Camera;
pub use types::CameraPermission;
pub use types::CameraPermissionUserView;
pub use types::CameraPermissionView;
pub use types::CameraSetting;
pub use types::CameraSettingNoMeta;
pub use types::User;
pub use types::Video;
pub use types::VideoCameraView;
pub use types::Credentials;
pub use types::ImageContainer;
pub use types::CameraMessage;
pub use types::CameraListChange;
pub use types::ApiChannelMessage;
pub use types::AddCameraForm;
pub use types::UserForm;
pub use types::UpdatePermissionForm;
pub use types::UpdateSettingsForm;

//! Sessions end to end over the model: classification, the rails, the
//! per-session tasks, recording, and teardown.

use oko::control::CameraControlAction;
use oko::control::ViewerControlAction;
use oko::control::camera_control_step;
use oko::control::viewer_control_step;
use oko::rail::ControlRail;
use oko::rail::FrameRail;
use oko::recorder::recorder_finalize;
use oko::recorder::recorder_open;
use oko::session::InboundAction;
use oko::session::PeerClass;
use oko::session::SessionError;
use oko::session::PeerMessage;
use oko::session::SessionRole;
use oko::session::classify_first_message;
use oko::session::establish_session;
use oko::store::Store;
use oko::types::ApiChannelMessage;
use oko::types::Camera;
use oko::types::CameraListChange;
use oko::types::CameraMessage;
use oko::types::CameraPermission;
use oko::types::CameraSetting;
use oko::types::CameraSettingNoMeta;
use oko::types::ImageContainer;
use oko::types::User;
use oko::viewer::EntitlementSnapshot;
use oko::viewer::viewer_step;

fn fixture() -> Store {
    let mut store = Store::new();
    for name in ["admin", "joedaly"] {
        store
            .create_user(User {
                user_id: 0,
                username: name.to_string(),
                password_hash: "x".to_string(),
                created_at: 0,
            })
            .unwrap();
    }
    for (name, addr) in [("Front Door", "127.0.0.1:40000"), ("Kitchen", "192.168.0.30:*")] {
        store.create_camera(Camera {
            camera_id: 0,
            name: name.to_string(),
            ip_address: Some(addr.to_string()),
            last_connected: None,
            is_active: true,
        });
    }
    for camera_id in [1i64, 2] {
        store
            .create_camera_setting(CameraSetting {
                setting_id: 0,
                camera_id,
                flashlight_enabled: false,
                resolution: "SVGA".to_string(),
                framerate: 5,
                last_modified: 0,
                modified_by: Some(1),
            })
            .unwrap();
    }
    // admin sees both cameras; joedaly sees camera 1 only.
    let rows: [(i64, i64, bool, bool); 4] =
        [(1, 1, true, true), (2, 1, true, true), (1, 2, true, false), (2, 2, false, false)];
    for (camera_id, user_id, can_view, can_control) in rows {
        store
            .create_camera_permission(CameraPermission {
                permission_id: 0,
                camera_id,
                user_id,
                can_view,
                can_control,
            })
            .unwrap();
    }
    store
}

#[test]
fn classification() {
    let camera = PeerMessage::Text("camera".to_string());
    assert!(matches!(classify_first_message(&camera), Some(PeerClass::CameraExact)));
    let any = PeerMessage::Text("camera_any_port".to_string());
    assert!(matches!(classify_first_message(&any), Some(PeerClass::CameraAnyPort)));
    let other = PeerMessage::Text("hello".to_string());
    assert!(matches!(classify_first_message(&other), Some(PeerClass::Viewer)));
    let binary = PeerMessage::Binary(vec![1, 2, 3]);
    assert!(matches!(classify_first_message(&binary), Some(PeerClass::Viewer)));
    assert!(classify_first_message(&PeerMessage::Close).is_none());
}

#[test]
fn camera_session_exact_endpoint() {
    let store = fixture();
    let first = PeerMessage::Text("camera".to_string());
    let session =
        establish_session(&store, &first, &"127.0.0.1".to_string(), 40000, None).unwrap();
    match &session.role {
        SessionRole::Camera { camera_id, initial_setting } => {
            assert_eq!(*camera_id, 1);
            assert_eq!(initial_setting.resolution, "SVGA");
            assert_eq!(initial_setting.framerate, 5);
        },
        SessionRole::Viewer { .. } => panic!("expected a camera session"),
    }
    // Exactly one recorder per camera session; no viewer sender.
    assert!(session.tasks.inbound);
    assert!(session.tasks.recorder);
    assert!(session.tasks.control);
    assert!(session.tasks.channel_open);
    assert!(!session.tasks.sender);
}

#[test]
fn camera_session_any_port() {
    let store = fixture();
    let first = PeerMessage::Text("camera_any_port".to_string());
    let session =
        establish_session(&store, &first, &"192.168.0.30".to_string(), 52011, None).unwrap();
    match &session.role {
        SessionRole::Camera { camera_id, .. } => assert_eq!(*camera_id, 2),
        SessionRole::Viewer { .. } => panic!("expected a camera session"),
    }
}

#[test]
fn unknown_camera_is_rejected() {
    let store = fixture();
    let first = PeerMessage::Text("camera".to_string());
    let r = establish_session(&store, &first, &"10.9.9.9".to_string(), 1, None);
    assert!(matches!(r, Err(SessionError::CameraUnknown)));
}

#[test]
fn viewer_needs_authentication() {
    let store = fixture();
    let first = PeerMessage::Text("hello".to_string());
    let r = establish_session(&store, &first, &"10.0.0.7".to_string(), 5, None);
    assert!(matches!(r, Err(SessionError::Unauthenticated)));
}

#[test]
fn viewer_session_entitlements() {
    let store = fixture();
    let first = PeerMessage::Text("hello".to_string());
    let session =
        establish_session(&store, &first, &"10.0.0.7".to_string(), 5, Some(2)).unwrap();
    match &session.role {
        SessionRole::Viewer { user_id, entitlements } => {
            assert_eq!(*user_id, 2);
            assert!(entitlements.contains(1));
            assert!(!entitlements.contains(2));
        },
        SessionRole::Camera { .. } => panic!("expected a viewer session"),
    }
    assert!(session.tasks.sender);
    assert!(!session.tasks.recorder);
}

#[test]
fn teardown_leaves_nothing_scheduled() {
    let store = fixture();
    let first = PeerMessage::Text("camera".to_string());
    let mut session =
        establish_session(&store, &first, &"127.0.0.1".to_string(), 40000, None).unwrap();
    session.terminate();
    assert!(!session.tasks.inbound);
    assert!(!session.tasks.sender);
    assert!(!session.tasks.recorder);
    assert!(!session.tasks.control);
    assert!(!session.tasks.channel_open);
}

#[test]
fn inbound_camera_frames_are_stamped() {
    let store = fixture();
    let first = PeerMessage::Text("camera".to_string());
    let session =
        establish_session(&store, &first, &"127.0.0.1".to_string(), 40000, None).unwrap();
    let action = session.inbound_step(PeerMessage::Binary(vec![9, 8, 7]), 1_234);
    match action {
        InboundAction::PublishFrame(f) => {
            assert_eq!(f.camera_id, 1);
            assert_eq!(f.timestamp, 1_234);
            assert_eq!(f.image_bytes, vec![9, 8, 7]);
        },
        _ => panic!("expected a frame publish"),
    }
    assert!(matches!(session.inbound_step(PeerMessage::Close, 0), InboundAction::Stop));
    assert!(matches!(
        session.inbound_step(PeerMessage::Text("x".to_string()), 0),
        InboundAction::Ignore
    ));
}

#[test]
fn live_feed_two_frames() {
    // A camera session for camera 2 publishes two frames; an entitled
    // viewer receives both payloads, in order, and skips the sentinel.
    let store = fixture();
    let mut rail = FrameRail::new();
    let snapshot = EntitlementSnapshot::from_store(&store, 1);
    let mut cursor = rail.subscribe();

    // The value present at subscription time is skipped.
    let first = rail.observe(&mut cursor);
    assert!(!viewer_step(&first, &snapshot, true));

    let mut received: Vec<Vec<u8>> = Vec::new();
    for payload in [vec![0x01u8], vec![0x02u8]] {
        rail.publish(ImageContainer { camera_id: 2, timestamp: 1, image_bytes: payload });
        assert!(rail.changed(&cursor));
        let frame = rail.observe(&mut cursor);
        if viewer_step(&frame, &snapshot, false) {
            received.push(frame.image_bytes);
        }
    }
    assert_eq!(received, vec![vec![0x01u8], vec![0x02u8]]);
}

#[test]
fn frames_outside_entitlements_are_dropped() {
    let store = fixture();
    let mut rail = FrameRail::new();
    // joedaly sees camera 1 only.
    let snapshot = EntitlementSnapshot::from_store(&store, 2);
    let mut cursor = rail.subscribe();
    rail.observe(&mut cursor);
    rail.publish(ImageContainer { camera_id: 2, timestamp: 5, image_bytes: vec![1] });
    let frame = rail.observe(&mut cursor);
    assert!(!viewer_step(&frame, &snapshot, false));
    rail.publish(ImageContainer { camera_id: 1, timestamp: 6, image_bytes: vec![2] });
    let frame2 = rail.observe(&mut cursor);
    assert!(viewer_step(&frame2, &snapshot, false));
}

#[test]
fn record_twenty_frames() {
    // A camera session appends twenty frames of a fixed image; its one
    // video row ends up with the exact byte count and an end time.
    let mut store = fixture();
    let jpeg = vec![0xffu8, 0xd8, 0xff, 0xe0, 0, 1, 2, 3];
    let videos_before = store.list_videos_for_camera(1).len();
    let setting = CameraSettingNoMeta {
        flashlight_enabled: false,
        resolution: "SVGA".to_string(),
        framerate: 5,
    };
    let (mut rec, video_id) = recorder_open(
        &mut store,
        1,
        Some(&setting),
        "/videos/r.avi".to_string(),
        10_000,
    );
    assert_eq!(rec.frame_width(), 800);
    assert_eq!(rec.frame_height(), 600);
    assert_eq!(rec.writer_framerate(), 5);
    assert_eq!(store.list_videos_for_camera(1).len(), videos_before + 1);

    let mut first = true;
    for _ in 0..20 {
        let frame = ImageContainer { camera_id: 1, timestamp: 0, image_bytes: jpeg.clone() };
        if rec.wants(&frame, first) {
            rec.appended_frame(frame.image_bytes.len());
        }
        first = false;
    }
    // The first observed value was skipped, so 19 frames landed; feed
    // one more so all 20 writes happen.
    let frame = ImageContainer { camera_id: 1, timestamp: 0, image_bytes: jpeg.clone() };
    assert!(rec.wants(&frame, false));
    rec.appended_frame(frame.image_bytes.len());

    recorder_finalize(&rec, &mut store, video_id, 10_020).unwrap();
    let video = store.get_video(video_id).unwrap();
    assert_eq!(video.end_time, Some(10_020));
    assert_eq!(video.file_size, Some(20 * jpeg.len() as i64));
}

#[test]
fn multi_camera_recorders_split_frames() {
    // Two camera sessions record interleaved frames; each recorder only
    // wants its own camera's frames, and two video rows exist.
    let mut store = fixture();
    let (mut rec1, vid1) =
        recorder_open(&mut store, 1, None, "/videos/a.avi".to_string(), 0);
    let (mut rec2, vid2) =
        recorder_open(&mut store, 2, None, "/videos/b.avi".to_string(), 0);
    assert_ne!(vid1, vid2);
    for i in 0..40i64 {
        let camera_id = 1 + (i % 2);
        let frame = ImageContainer { camera_id, timestamp: i, image_bytes: vec![7u8; 10] };
        if rec1.wants(&frame, false) {
            rec1.appended_frame(frame.image_bytes.len());
        }
        if rec2.wants(&frame, false) {
            rec2.appended_frame(frame.image_bytes.len());
        }
    }
    recorder_finalize(&rec1, &mut store, vid1, 99).unwrap();
    recorder_finalize(&rec2, &mut store, vid2, 99).unwrap();
    assert_eq!(store.get_video(vid1).unwrap().file_size, Some(200));
    assert_eq!(store.get_video(vid2).unwrap().file_size, Some(200));
}

#[test]
fn control_fanout_reaches_only_the_target() {
    let event = ApiChannelMessage::CameraAction {
        camera_id: 2,
        message: CameraMessage::Restart,
    };
    // The camera-2 session forwards; the camera-1 session ignores.
    match camera_control_step(2, clone_event(&event)) {
        CameraControlAction::Forward(CameraMessage::Restart) => {},
        _ => panic!("expected the restart to be forwarded"),
    }
    assert!(matches!(camera_control_step(1, clone_event(&event)), CameraControlAction::Ignore));
    // Viewers ignore camera actions.
    assert!(matches!(viewer_control_step(clone_event(&event)), ViewerControlAction::Ignore));
}

#[test]
fn removal_tears_down_the_removed_camera_only() {
    let removed = ApiChannelMessage::CameraListChanged(CameraListChange::Removed { camera_id: 1 });
    assert!(matches!(camera_control_step(1, clone_event(&removed)), CameraControlAction::Teardown));
    assert!(matches!(camera_control_step(2, clone_event(&removed)), CameraControlAction::Ignore));
    // Viewers relay the delta and refresh their snapshot.
    match viewer_control_step(clone_event(&removed)) {
        ViewerControlAction::RelayAndRefresh(CameraListChange::Removed { camera_id }) => {
            assert_eq!(camera_id, 1)
        },
        _ => panic!("expected a relay"),
    }
}

#[test]
fn removed_camera_leaves_entitlements_on_refresh() {
    let mut store = fixture();
    let before = EntitlementSnapshot::from_store(&store, 2);
    assert!(before.contains(1));
    store.delete_camera(1).unwrap();
    let after = EntitlementSnapshot::from_store(&store, 2);
    assert!(!after.contains(1));
}

#[test]
fn permission_change_is_visible_after_refresh() {
    // Viewer joedaly initially sees camera 1 only; granting camera 2
    // shows up on the next refresh (which every delta triggers).
    let mut store = fixture();
    let admin = User {
        user_id: 1,
        username: "admin".to_string(),
        password_hash: "x".to_string(),
        created_at: 0,
    };
    let before = EntitlementSnapshot::from_store(&store, 2);
    assert!(before.contains(1) && !before.contains(2));
    let form = oko::types::UpdatePermissionForm { can_view: true, can_control: true };
    // joedaly's camera-2 row is permission 4.
    let (stored, event) =
        oko::admin::update_permission(&mut store, Some(&admin), 4, &form).unwrap();
    assert!(stored.can_view && stored.can_control);
    assert!(matches!(
        event,
        ApiChannelMessage::CameraListChanged(CameraListChange::Updated { camera_id: 2 })
    ));
    let after = EntitlementSnapshot::from_store(&store, 2);
    assert!(after.contains(1) && after.contains(2));
}

#[test]
fn control_rail_carries_events_in_order() {
    let mut rail = ControlRail::new();
    let mut cursor = rail.subscribe();
    assert!(!rail.changed(&cursor));
    rail.publish(ApiChannelMessage::CameraAction {
        camera_id: 1,
        message: CameraMessage::Restart,
    });
    assert!(rail.changed(&cursor));
    let seen = rail.observe(&mut cursor);
    assert!(matches!(seen, ApiChannelMessage::CameraAction { camera_id: 1, .. }));
    assert!(!rail.changed(&cursor));
}

fn clone_event(e: &ApiChannelMessage) -> ApiChannelMessage {
    e.duplicate()
}

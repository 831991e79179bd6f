//! The admin command surface: authorization, validation, idempotency of
//! failures, and the events each command publishes.

use oko::admin::ApiError;
use oko::admin::create_camera;
use oko::admin::create_user;
use oko::admin::delete_camera;
use oko::admin::delete_user;
use oko::admin::restart_camera;
use oko::admin::update_permission;
use oko::admin::update_setting;
use oko::admin::update_user;
use oko::admin::videos_for_camera;
use oko::auth::authenticate;
use oko::store::Store;
use oko::types::AddCameraForm;
use oko::types::ApiChannelMessage;
use oko::types::Camera;
use oko::types::CameraListChange;
use oko::types::CameraMessage;
use oko::types::CameraPermission;
use oko::types::CameraSetting;
use oko::types::Credentials;
use oko::types::UpdatePermissionForm;
use oko::types::UpdateSettingsForm;
use oko::types::User;
use oko::types::UserForm;

fn admin_user() -> User {
    User {
        user_id: 3,
        username: "admin".to_string(),
        password_hash: "h".to_string(),
        created_at: 0,
    }
}

fn viewer_user() -> User {
    User {
        user_id: 2,
        username: "joedaly".to_string(),
        password_hash: "h".to_string(),
        created_at: 0,
    }
}

/// Two cameras with settings; admin controls both, joedaly views
/// camera 1 only.
fn fixture() -> Store {
    let mut store = Store::new();
    for name in ["piotrpdev", "joedaly", "admin", "guest"] {
        store
            .create_user(User {
                user_id: 0,
                username: name.to_string(),
                password_hash: "x".to_string(),
                created_at: 0,
            })
            .unwrap();
    }
    for (name, addr) in [("Front Door", "127.0.0.1:40000"), ("Kitchen", "192.168.0.30:*")] {
        store.create_camera(Camera {
            camera_id: 0,
            name: name.to_string(),
            ip_address: Some(addr.to_string()),
            last_connected: None,
            is_active: true,
        });
    }
    for camera_id in [1i64, 2] {
        store
            .create_camera_setting(CameraSetting {
                setting_id: 0,
                camera_id,
                flashlight_enabled: false,
                resolution: "SVGA".to_string(),
                framerate: 5,
                last_modified: 1_000,
                modified_by: Some(3),
            })
            .unwrap();
    }
    let rows: [(i64, i64, bool, bool); 4] =
        [(1, 3, true, true), (2, 3, true, true), (1, 2, true, false), (2, 2, false, false)];
    for (camera_id, user_id, can_view, can_control) in rows {
        store
            .create_camera_permission(CameraPermission {
                permission_id: 0,
                camera_id,
                user_id,
                can_view,
                can_control,
            })
            .unwrap();
    }
    store
}

#[test]
fn restart_nonexistent_camera_publishes_nothing() {
    let store = fixture();
    let admin = admin_user();
    let r = restart_camera(&store, Some(&admin), 42);
    assert!(matches!(r, Err(ApiError::NotFound)));
}

#[test]
fn restart_existing_camera() {
    let store = fixture();
    let admin = admin_user();
    let event = restart_camera(&store, Some(&admin), 2).unwrap();
    assert!(matches!(
        event,
        ApiChannelMessage::CameraAction { camera_id: 2, message: CameraMessage::Restart }
    ));
}

#[test]
fn delete_nonexistent_camera_changes_nothing() {
    let mut store = fixture();
    let admin = admin_user();
    let r = delete_camera(&mut store, Some(&admin), 42);
    assert!(matches!(r, Err(ApiError::NotFound)));
    assert!(store.get_camera(1).is_some());
    assert!(store.get_camera(2).is_some());
}

#[test]
fn unauthorized_remove_is_forbidden() {
    let mut store = fixture();
    let joedaly = viewer_user();
    let r = delete_camera(&mut store, Some(&joedaly), 1);
    assert!(matches!(r, Err(ApiError::Forbidden)));
    // The camera remains enumerable.
    assert_eq!(store.get_camera(1).unwrap().name, "Front Door");
    let r2 = delete_camera(&mut store, None, 1);
    assert!(matches!(r2, Err(ApiError::Unauthorized)));
}

#[test]
fn delete_camera_publishes_removed() {
    let mut store = fixture();
    let admin = admin_user();
    let event = delete_camera(&mut store, Some(&admin), 1).unwrap();
    assert!(matches!(
        event,
        ApiChannelMessage::CameraListChanged(CameraListChange::Removed { camera_id: 1 })
    ));
    assert!(store.get_camera(1).is_none());
    assert!(store.get_setting_for_camera(1).is_none());
}

#[test]
fn update_nonexistent_permission_changes_nothing() {
    let mut store = fixture();
    let admin = admin_user();
    let form = UpdatePermissionForm { can_view: true, can_control: true };
    let r = update_permission(&mut store, Some(&admin), 42, &form);
    assert!(matches!(r, Err(ApiError::NotFound)));
}

#[test]
fn permission_update_grants_control() {
    let mut store = fixture();
    let admin = admin_user();
    // joedaly's camera-1 row is permission 3 (two admin rows come first).
    let form = UpdatePermissionForm { can_view: true, can_control: true };
    let (stored, event) = update_permission(&mut store, Some(&admin), 3, &form).unwrap();
    assert_eq!(stored.camera_id, 1);
    assert_eq!(stored.user_id, 2);
    assert!(stored.can_view && stored.can_control);
    assert!(matches!(
        event,
        ApiChannelMessage::CameraListChanged(CameraListChange::Updated { camera_id: 1 })
    ));
    let p = store.get_camera_permission(3).unwrap();
    assert!(p.can_view && p.can_control);
}

#[test]
fn setting_update_rejects_bad_framerate() {
    let mut store = fixture();
    let admin = admin_user();
    for framerate in [0i64, 61, -5] {
        let form = UpdateSettingsForm {
            flashlight_enabled: true,
            resolution: "SVGA".to_string(),
            framerate,
        };
        let r = update_setting(&mut store, Some(&admin), 1, &form, 2_000);
        assert!(matches!(r, Err(ApiError::BadRequest)));
    }
    // Nothing changed, nothing published.
    let s = store.get_camera_setting(1).unwrap();
    assert!(!s.flashlight_enabled);
    assert_eq!(s.last_modified, 1_000);
}

#[test]
fn setting_update_rejects_bad_resolution() {
    let mut store = fixture();
    let admin = admin_user();
    for resolution in ["QVGA", "", "svga", "1920x1080"] {
        let form = UpdateSettingsForm {
            flashlight_enabled: true,
            resolution: resolution.to_string(),
            framerate: 5,
        };
        let r = update_setting(&mut store, Some(&admin), 1, &form, 2_000);
        assert!(matches!(r, Err(ApiError::BadRequest)));
    }
}

#[test]
fn setting_update_flips_flashlight() {
    let mut store = fixture();
    let admin = admin_user();
    let form = UpdateSettingsForm {
        flashlight_enabled: true,
        resolution: "VGA".to_string(),
        framerate: 24,
    };
    let (stored, event) = update_setting(&mut store, Some(&admin), 2, &form, 2_000).unwrap();
    assert_eq!(stored.camera_id, 2);
    assert!(stored.flashlight_enabled);
    assert_eq!(stored.resolution, "VGA");
    assert_eq!(stored.framerate, 24);
    assert_eq!(stored.last_modified, 2_000);
    assert_eq!(stored.modified_by, Some(3));
    match event {
        ApiChannelMessage::CameraAction { camera_id, message } => {
            assert_eq!(camera_id, 2);
            match message {
                CameraMessage::SettingChanged(s) => {
                    assert!(s.flashlight_enabled);
                    assert_eq!(s.resolution, "VGA");
                    assert_eq!(s.framerate, 24);
                },
                CameraMessage::Restart => panic!("expected a setting change"),
            }
        },
        _ => panic!("expected a camera action"),
    }
    let s = store.get_camera_setting(2).unwrap();
    assert!(s.flashlight_enabled);
    assert_eq!(s.last_modified, 2_000);
}

#[test]
fn setting_update_needs_control_rights() {
    let mut store = fixture();
    let joedaly = viewer_user();
    let form = UpdateSettingsForm {
        flashlight_enabled: true,
        resolution: "SVGA".to_string(),
        framerate: 5,
    };
    // joedaly can view camera 1 but not control it.
    let r = update_setting(&mut store, Some(&joedaly), 1, &form, 2_000);
    assert!(matches!(r, Err(ApiError::Forbidden)));
}

#[test]
fn non_admin_controller_changes_flashlight_only() {
    let mut store = fixture();
    let admin = admin_user();
    // Grant joedaly control of camera 1 first.
    let form = UpdatePermissionForm { can_view: true, can_control: true };
    update_permission(&mut store, Some(&admin), 3, &form).unwrap();
    let joedaly = viewer_user();
    let sform = UpdateSettingsForm {
        flashlight_enabled: true,
        resolution: "VGA".to_string(),
        framerate: 24,
    };
    let (stored, _) = update_setting(&mut store, Some(&joedaly), 1, &sform, 3_000).unwrap();
    assert!(stored.flashlight_enabled);
    // Resolution and framerate stay: only the admin may change them.
    assert_eq!(stored.resolution, "SVGA");
    assert_eq!(stored.framerate, 5);
    assert_eq!(stored.modified_by, Some(2));
}

#[test]
fn enroll_camera_provisions_everything() {
    let mut store = fixture();
    let admin = admin_user();
    let form = AddCameraForm {
        name: "Backyard".to_string(),
        address: "192.168.0.44".to_string(),
        skip_mdns_connect: false,
    };
    let (camera, event, url) = create_camera(&mut store, Some(&admin), &form, 5_000).unwrap();
    assert_eq!(camera.camera_id, 3);
    assert_eq!(camera.name, "Backyard");
    // A bare host is admitted from any port.
    assert_eq!(camera.ip_address, Some("192.168.0.44:*".to_string()));
    assert_eq!(url, "http://192.168.0.44:80/mdns_connect");
    assert!(matches!(
        event,
        ApiChannelMessage::CameraListChanged(CameraListChange::Added { camera_id: 3 })
    ));
    let s = store.get_setting_for_camera(3).unwrap();
    assert!(!s.flashlight_enabled);
    assert_eq!(s.resolution, "SVGA");
    assert_eq!(s.framerate, 5);
    assert_eq!(s.last_modified, 5_000);
    assert_eq!(s.modified_by, Some(3));
    // The admin controls the camera; everyone else has a zeroed row.
    let p_admin = store.get_permission_pair(3, 3).unwrap();
    assert!(p_admin.can_view && p_admin.can_control);
    for user_id in [1i64, 2, 4] {
        let p = store.get_permission_pair(3, user_id).unwrap();
        assert!(!p.can_view && !p.can_control);
    }
}

#[test]
fn enroll_camera_with_endpoint_keeps_port() {
    let mut store = fixture();
    let admin = admin_user();
    let form = AddCameraForm {
        name: "Porch".to_string(),
        address: "10.0.0.5:8080".to_string(),
        skip_mdns_connect: true,
    };
    let (camera, _, url) = create_camera(&mut store, Some(&admin), &form, 5_000).unwrap();
    assert_eq!(camera.ip_address, Some("10.0.0.5:8080".to_string()));
    assert_eq!(url, "http://10.0.0.5:8080/mdns_connect");
}

#[test]
fn enroll_camera_rejects_bad_address() {
    let mut store = fixture();
    let admin = admin_user();
    for address in ["", "not-an-address", "10.0.0:80", "10.0.0.5:"] {
        let form = AddCameraForm {
            name: "Nope".to_string(),
            address: address.to_string(),
            skip_mdns_connect: true,
        };
        let r = create_camera(&mut store, Some(&admin), &form, 5_000);
        assert!(matches!(r, Err(ApiError::BadRequest)));
    }
    assert!(store.get_camera(3).is_none());
}

#[test]
fn create_user_registers_and_authenticates() {
    let mut store = fixture();
    let admin = admin_user();
    let form = UserForm { username: "newuser1".to_string(), password: "hunter42x".to_string() };
    let created = create_user(&mut store, Some(&admin), &form, 6_000).unwrap();
    assert_eq!(created.user_id, 5);
    assert_eq!(created.username, "newuser1");
    assert_eq!(created.created_at, 6_000);
    // Every camera has a zeroed row for the new user.
    for camera_id in [1i64, 2] {
        let p = store.get_permission_pair(camera_id, 5).unwrap();
        assert!(!p.can_view && !p.can_control);
    }
    // The registered password authenticates; a wrong one does not.
    let creds = Credentials { username: "newuser1".to_string(), password: "hunter42x".to_string() };
    let logged_in = authenticate(&store, &creds).unwrap();
    assert_eq!(logged_in.user_id, 5);
    let bad = Credentials { username: "newuser1".to_string(), password: "wrong".to_string() };
    assert!(authenticate(&store, &bad).is_none());
}

#[test]
fn create_user_rejects_bad_input() {
    let mut store = fixture();
    let admin = admin_user();
    for (username, password) in
        [("has space", "password1"), ("ok1", ""), ("ok2", "has space"), ("bad-name", "password1")]
    {
        let form = UserForm { username: username.to_string(), password: password.to_string() };
        let r = create_user(&mut store, Some(&admin), &form, 0);
        assert!(matches!(r, Err(ApiError::BadRequest)));
    }
    let taken = UserForm { username: "joedaly".to_string(), password: "password1".to_string() };
    assert!(matches!(create_user(&mut store, Some(&admin), &taken, 0), Err(ApiError::Conflict)));
}

#[test]
fn update_user_keeps_wellknown_names() {
    let mut store = fixture();
    let admin = admin_user();
    let form = UserForm { username: "renamed1".to_string(), password: "".to_string() };
    // Renaming the admin account keeps its name.
    let u = update_user(&mut store, Some(&admin), 3, &form).unwrap();
    assert_eq!(u.username, "admin");
    // Renaming an ordinary user works, and the empty password keeps the
    // stored hash.
    let u2 = update_user(&mut store, Some(&admin), 1, &form).unwrap();
    assert_eq!(u2.username, "renamed1");
    assert_eq!(u2.password_hash, "x");
}

#[test]
fn update_user_rejects_taken_name() {
    let mut store = fixture();
    let admin = admin_user();
    let taken = UserForm { username: "joedaly".to_string(), password: "".to_string() };
    assert!(matches!(
        update_user(&mut store, Some(&admin), 1, &taken),
        Err(ApiError::Conflict)
    ));
    // The target keeps its row.
    assert_eq!(store.get_user(1).unwrap().username, "piotrpdev");
}

#[test]
fn video_download_is_gated() {
    let mut store = fixture();
    store.create_video(oko::types::Video {
        video_id: 0,
        camera_id: Some(2),
        file_path: "/videos/k.avi".to_string(),
        start_time: 0,
        end_time: None,
        file_size: None,
    });
    let admin = admin_user();
    let joedaly = viewer_user();
    // The admin sees camera 2, joedaly does not.
    let v = oko::admin::video_view(&store, Some(&admin), 1).unwrap();
    assert_eq!(v.file_path, "/videos/k.avi");
    assert!(matches!(
        oko::admin::video_view(&store, Some(&joedaly), 1),
        Err(ApiError::Forbidden)
    ));
    assert!(matches!(
        oko::admin::video_view(&store, Some(&admin), 42),
        Err(ApiError::NotFound)
    ));
    assert!(matches!(oko::admin::video_view(&store, None, 1), Err(ApiError::Unauthorized)));
    // A recording whose camera is gone is not served.
    store.delete_camera(2).unwrap();
    assert!(matches!(
        oko::admin::video_view(&store, Some(&admin), 1),
        Err(ApiError::NotFound)
    ));
}

#[test]
fn discovery_stream_is_admin_only() {
    let admin = admin_user();
    let joedaly = viewer_user();
    assert!(oko::admin::discovery_access(Some(&admin)).is_ok());
    assert!(matches!(
        oko::admin::discovery_access(Some(&joedaly)),
        Err(ApiError::Forbidden)
    ));
    assert!(matches!(oko::admin::discovery_access(None), Err(ApiError::Unauthorized)));
}

#[test]
fn delete_user_is_admin_only() {
    let mut store = fixture();
    let joedaly = viewer_user();
    assert!(matches!(delete_user(&mut store, Some(&joedaly), 1), Err(ApiError::Forbidden)));
    let admin = admin_user();
    assert!(matches!(delete_user(&mut store, Some(&admin), 42), Err(ApiError::NotFound)));
    assert_eq!(delete_user(&mut store, Some(&admin), 1).unwrap(), 1);
    assert!(store.get_user(1).is_none());
}

#[test]
fn videos_need_entitlement() {
    let mut store = fixture();
    store.create_video(oko::types::Video {
        video_id: 0,
        camera_id: Some(2),
        file_path: "/videos/k.avi".to_string(),
        start_time: 0,
        end_time: None,
        file_size: None,
    });
    let joedaly = viewer_user();
    // joedaly cannot view camera 2.
    let r = videos_for_camera(&store, Some(&joedaly), 2);
    assert!(matches!(r, Err(ApiError::Forbidden)));
    // The admin can.
    let admin = admin_user();
    let rows = videos_for_camera(&store, Some(&admin), 2).unwrap();
    assert_eq!(rows.len(), 1);
    assert_eq!(rows[0].camera_name, "Kitchen");
}

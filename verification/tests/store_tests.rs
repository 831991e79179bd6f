//! The store model: CRUD semantics, id assignment, and delete cascades.

use oko::store::Store;
use oko::types::Camera;
use oko::types::CameraPermission;
use oko::types::CameraSetting;
use oko::types::User;
use oko::types::Video;

/// A small installation: four users, two cameras, one setting and four
/// permission rows per camera, two recordings of camera 1.
fn fixture() -> Store {
    let mut store = Store::new();
    for name in ["piotrpdev", "joedaly", "admin", "guest"] {
        store
            .create_user(User {
                user_id: 0,
                username: name.to_string(),
                password_hash: "x".to_string(),
                created_at: 1_729_530_138,
            })
            .unwrap();
    }
    store.create_camera(Camera {
        camera_id: 0,
        name: "Front Door".to_string(),
        ip_address: Some("127.0.0.1:40000".to_string()),
        last_connected: None,
        is_active: true,
    });
    store.create_camera(Camera {
        camera_id: 0,
        name: "Kitchen".to_string(),
        ip_address: Some("192.168.0.30:*".to_string()),
        last_connected: None,
        is_active: true,
    });
    for camera_id in [1i64, 2] {
        store
            .create_camera_setting(CameraSetting {
                setting_id: 0,
                camera_id,
                flashlight_enabled: false,
                resolution: "SVGA".to_string(),
                framerate: 5,
                last_modified: 1_729_530_153,
                modified_by: Some(3),
            })
            .unwrap();
    }
    // Rows 1..=8: camera 1 and camera 2 for each user, in user order.
    // piotrpdev controls camera 1; joedaly may view camera 1 only;
    // admin controls both; guest sees nothing.
    let rows: [(i64, i64, bool, bool); 8] = [
        (1, 1, true, true),
        (2, 1, false, false),
        (1, 2, true, false),
        (2, 2, false, false),
        (1, 3, true, true),
        (2, 3, true, true),
        (1, 4, false, false),
        (2, 4, false, false),
    ];
    for (camera_id, user_id, can_view, can_control) in rows {
        store
            .create_camera_permission(CameraPermission {
                permission_id: 0,
                camera_id,
                user_id,
                can_view,
                can_control,
            })
            .unwrap();
    }
    for _ in 0..2 {
        store.create_video(Video {
            video_id: 0,
            camera_id: Some(1),
            file_path: "/videos/1.avi".to_string(),
            start_time: 1_729_479_512,
            end_time: Some(1_729_479_600),
            file_size: Some(6_762_403),
        });
    }
    store
}

#[test]
fn camera_create() {
    let mut store = fixture();
    let id = store.create_camera(Camera {
        camera_id: 0,
        name: "Backyard".to_string(),
        ip_address: None,
        last_connected: None,
        is_active: true,
    });
    assert_eq!(id, 3);
    let cam = store.get_camera(3).unwrap();
    assert_eq!(cam.name, "Backyard");
    assert_eq!(cam.ip_address, None);
    assert!(cam.is_active);
}

#[test]
fn camera_get() {
    let store = fixture();
    let cam = store.get_camera(1).unwrap();
    assert_eq!(cam.camera_id, 1);
    assert_eq!(cam.name, "Front Door");
    assert_eq!(cam.ip_address, Some("127.0.0.1:40000".to_string()));
    assert!(cam.is_active);
    assert!(store.get_camera(99).is_none());
}

#[test]
fn camera_get_by_address() {
    let store = fixture();
    let cam = store.get_camera_by_address(&"127.0.0.1:40000".to_string()).unwrap();
    assert_eq!(cam.camera_id, 1);
    let any = store.get_camera_by_address(&"192.168.0.30:*".to_string()).unwrap();
    assert_eq!(any.camera_id, 2);
    assert!(store.get_camera_by_address(&"10.0.0.1:1".to_string()).is_none());
}

#[test]
fn camera_delete() {
    let mut store = fixture();
    assert!(store.delete_camera(1).is_ok());
    assert!(store.get_camera(1).is_none());
    assert!(store.delete_camera(1).is_err());
}

#[test]
fn camera_on_delete() {
    let mut store = fixture();
    assert_eq!(store.get_camera_permission(1).unwrap().camera_id, 1);
    assert_eq!(store.get_video(1).unwrap().camera_id, Some(1));
    assert_eq!(store.get_setting_for_camera(1).unwrap().camera_id, 1);

    store.delete_camera(1).unwrap();

    assert!(store.get_camera_permission(1).is_none());
    assert_eq!(store.get_video(1).unwrap().camera_id, None);
    assert!(store.get_setting_for_camera(1).is_none());
    // Camera 2 is untouched.
    assert!(store.get_setting_for_camera(2).is_some());
    assert!(store.get_camera_permission(2).is_some());
}

#[test]
fn user_on_delete() {
    let mut store = fixture();
    // joedaly (user 2) holds permission row 3; admin (user 3) stamped
    // the settings.
    assert_eq!(store.get_camera_permission(3).unwrap().user_id, 2);
    assert_eq!(store.get_camera_setting(1).unwrap().modified_by, Some(3));

    store.delete_user(2).unwrap();
    assert!(store.get_camera_permission(3).is_none());
    assert_eq!(store.get_camera_setting(1).unwrap().modified_by, Some(3));

    store.delete_user(3).unwrap();
    assert_eq!(store.get_camera_setting(1).unwrap().modified_by, None);
}

#[test]
fn camera_permission_create() {
    let mut store = fixture();
    let id = store
        .create_camera_permission(CameraPermission {
            permission_id: 0,
            camera_id: 1,
            user_id: 99,
            can_view: true,
            can_control: false,
        })
        .unwrap();
    assert_eq!(id, 9);
    let p = store.get_camera_permission(9).unwrap();
    assert_eq!(p.camera_id, 1);
    assert_eq!(p.user_id, 99);
    assert!(p.can_view);
    assert!(!p.can_control);
    // A second row for the same pair is rejected.
    assert!(store
        .create_camera_permission(CameraPermission {
            permission_id: 0,
            camera_id: 1,
            user_id: 99,
            can_view: false,
            can_control: false,
        })
        .is_err());
}

#[test]
fn camera_permission_get() {
    let store = fixture();
    let p = store.get_camera_permission(1).unwrap();
    assert_eq!(p.permission_id, 1);
    assert_eq!(p.camera_id, 1);
    assert_eq!(p.user_id, 1);
    assert!(p.can_view);
    assert!(p.can_control);
}

#[test]
fn camera_permission_update() {
    let mut store = fixture();
    let stored = store
        .update_camera_permission(CameraPermission {
            permission_id: 1,
            camera_id: 0,
            user_id: 0,
            can_view: false,
            can_control: true,
        })
        .unwrap();
    // The binding cannot change; only the rights do.
    assert_eq!(stored.camera_id, 1);
    assert_eq!(stored.user_id, 1);
    assert!(!stored.can_view);
    assert!(stored.can_control);
    let p = store.get_camera_permission(1).unwrap();
    assert!(!p.can_view && p.can_control);
}

#[test]
fn camera_permission_list_for_camera() {
    let store = fixture();
    let rows = store.list_permissions_for_camera(1);
    assert_eq!(rows.len(), 4);
    let ids: Vec<i64> = rows.iter().map(|r| r.permission_id).collect();
    assert!(ids.contains(&1) && ids.contains(&3) && ids.contains(&5) && ids.contains(&7));
    let names: Vec<&str> = rows.iter().map(|r| r.username.as_str()).collect();
    assert!(names.contains(&"piotrpdev"));
    assert!(names.contains(&"joedaly"));
    assert!(names.contains(&"admin"));
    assert!(names.contains(&"guest"));
}

#[test]
fn camera_setting_create() {
    let mut store = fixture();
    store.create_camera(Camera {
        camera_id: 0,
        name: "Backyard".to_string(),
        ip_address: None,
        last_connected: None,
        is_active: true,
    });
    let id = store
        .create_camera_setting(CameraSetting {
            setting_id: 0,
            camera_id: 3,
            flashlight_enabled: true,
            resolution: "VGA".to_string(),
            framerate: 30,
            last_modified: 1_729_530_153,
            modified_by: Some(1),
        })
        .unwrap();
    assert_eq!(id, 3);
    // A second setting row for the same camera is rejected: exactly one
    // current setting per camera.
    assert!(store
        .create_camera_setting(CameraSetting {
            setting_id: 0,
            camera_id: 3,
            flashlight_enabled: false,
            resolution: "SVGA".to_string(),
            framerate: 5,
            last_modified: 0,
            modified_by: None,
        })
        .is_err());
}

#[test]
fn camera_setting_get() {
    let store = fixture();
    let s = store.get_camera_setting(1).unwrap();
    assert_eq!(s.setting_id, 1);
    assert_eq!(s.camera_id, 1);
    assert!(!s.flashlight_enabled);
    assert_eq!(s.resolution, "SVGA");
    assert_eq!(s.framerate, 5);
    assert_eq!(s.last_modified, 1_729_530_153);
    assert_eq!(s.modified_by, Some(3));
}

#[test]
fn camera_setting_update() {
    let mut store = fixture();
    store
        .update_camera_setting(CameraSetting {
            setting_id: 1,
            camera_id: 999,
            flashlight_enabled: true,
            resolution: "VGA".to_string(),
            framerate: 24,
            last_modified: 1_729_526_553,
            modified_by: Some(1),
        })
        .unwrap();
    let s = store.get_camera_setting(1).unwrap();
    // The camera the row belongs to cannot change.
    assert_eq!(s.camera_id, 1);
    assert!(s.flashlight_enabled);
    assert_eq!(s.resolution, "VGA");
    assert_eq!(s.framerate, 24);
    assert_eq!(s.last_modified, 1_729_526_553);
    assert_eq!(s.modified_by, Some(1));
}

#[test]
fn camera_setting_get_for_camera() {
    let store = fixture();
    let s = store.get_setting_for_camera(2).unwrap();
    assert_eq!(s.setting_id, 2);
    assert_eq!(s.camera_id, 2);
    assert!(store.get_setting_for_camera(42).is_none());
}

#[test]
fn user_create() {
    let mut store = fixture();
    let id = store
        .create_user(User {
            user_id: 0,
            username: "test_user".to_string(),
            password_hash: "test_hash".to_string(),
            created_at: 7,
        })
        .unwrap();
    assert_eq!(id, 5);
    let u = store.get_user(5).unwrap();
    assert_eq!(u.username, "test_user");
    assert_eq!(u.password_hash, "test_hash");
    assert_eq!(u.created_at, 7);
}

#[test]
fn user_create_existing() {
    let mut store = fixture();
    let result = store.create_user(User {
        user_id: 0,
        username: "piotrpdev".to_string(),
        password_hash: "test_hash".to_string(),
        created_at: 7,
    });
    assert!(result.is_err());
}

#[test]
fn user_get() {
    let store = fixture();
    let u = store.get_user(1).unwrap();
    assert_eq!(u.user_id, 1);
    assert_eq!(u.username, "piotrpdev");
    assert_eq!(u.created_at, 1_729_530_138);
}

#[test]
fn user_get_using_username() {
    let store = fixture();
    let u = store.get_user_by_username(&"joedaly".to_string()).unwrap();
    assert_eq!(u.user_id, 2);
    assert!(store.get_user_by_username(&"nobody".to_string()).is_none());
}

#[test]
fn user_update() {
    let mut store = fixture();
    store
        .update_user(User {
            user_id: 2,
            username: "new_joedaly".to_string(),
            password_hash: "h2".to_string(),
            created_at: 1_729_530_138,
        })
        .unwrap();
    let u = store.get_user(2).unwrap();
    assert_eq!(u.username, "new_joedaly");
    assert_eq!(u.password_hash, "h2");
    // Renaming onto a taken name is rejected.
    assert!(store
        .update_user(User {
            user_id: 2,
            username: "admin".to_string(),
            password_hash: "h2".to_string(),
            created_at: 1_729_530_138,
        })
        .is_err());
}

#[test]
fn user_delete() {
    let mut store = fixture();
    assert!(store.delete_user(2).is_ok());
    assert!(store.get_user(2).is_none());
    assert!(store.delete_user(2).is_err());
}

#[test]
fn to_redacted_clone() {
    let store = fixture();
    let u = store.get_user(1).unwrap();
    let redacted = u.to_redacted_clone();
    assert_eq!(redacted.user_id, 1);
    assert_eq!(redacted.username, "piotrpdev");
    assert_eq!(redacted.password_hash, "[redacted]");
    assert_eq!(redacted.created_at, 1_729_530_138);
}

#[test]
fn video_create() {
    let mut store = fixture();
    let id = store.create_video(Video {
        video_id: 0,
        camera_id: Some(1),
        file_path: "/videos/3.avi".to_string(),
        start_time: 100,
        end_time: None,
        file_size: None,
    });
    assert_eq!(id, 3);
    let v = store.get_video(3).unwrap();
    assert_eq!(v.camera_id, Some(1));
    assert_eq!(v.file_path, "/videos/3.avi");
    assert_eq!(v.end_time, None);
}

#[test]
fn video_get() {
    let store = fixture();
    let v = store.get_video(1).unwrap();
    assert_eq!(v.video_id, 1);
    assert_eq!(v.camera_id, Some(1));
    assert_eq!(v.start_time, 1_729_479_512);
    assert_eq!(v.file_size, Some(6_762_403));
}

#[test]
fn video_update() {
    let mut store = fixture();
    store
        .update_video(Video {
            video_id: 1,
            camera_id: Some(1),
            file_path: "ignored".to_string(),
            start_time: 0,
            end_time: Some(2_000),
            file_size: Some(2048),
        })
        .unwrap();
    let v = store.get_video(1).unwrap();
    // Path and start time are not updatable columns.
    assert_eq!(v.file_path, "/videos/1.avi");
    assert_eq!(v.start_time, 1_729_479_512);
    assert_eq!(v.end_time, Some(2_000));
    assert_eq!(v.file_size, Some(2048));
}

#[test]
fn video_list_for_camera() {
    let store = fixture();
    let rows = store.list_videos_for_camera(1);
    assert_eq!(rows.len(), 2);
    assert_eq!(rows[0].video_id, 1);
    assert_eq!(rows[0].camera_id, Some(1));
    assert_eq!(rows[0].camera_name, "Front Door");
    assert_eq!(rows[0].file_path, "/videos/1.avi");
    assert_eq!(rows[0].file_size, Some(6_762_403));
    assert_eq!(store.list_videos_for_camera(2).len(), 0);
    assert_eq!(store.list_videos_for_camera(42).len(), 0);
}

#[test]
fn list_accessible_to_user() {
    let store = fixture();
    // joedaly: one row per active camera he has a permission row for.
    let cams = store.list_accessible_to_user(2);
    assert_eq!(cams.len(), 2);
    assert_eq!(cams[0].camera_id, 1);
    assert_eq!(cams[0].camera_name, "Front Door");
    assert!(cams[0].can_view);
    assert!(!cams[0].can_control);
    assert_eq!(cams[1].camera_id, 2);
    assert!(!cams[1].can_view);
    assert!(!cams[1].can_control);
}

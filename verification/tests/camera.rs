use cam_manager::camera::{
    after_add, after_patch, camera_statuses, create_camera, path_url_of, paths_list_url,
    storage_failure, sync_all_cameras, update_camera, AfterAdd,
};
use cam_manager::error::EngineError;
use cam_manager::models::{Camera, CameraStatus};

fn camera(name: &str, host: &str) -> Camera {
    Camera {
        id: 1,
        name: name.to_string(),
        host: host.to_string(),
        port: 554,
        username: String::new(),
        password: String::new(),
        path: "/s".to_string(),
        protocol: "rtsp".to_string(),
        enabled: true,
        record: true,
        source_on_demand: false,
        location: String::new(),
        area: String::new(),
        created_at: None,
        updated_at: None,
    }
}

#[test]
fn camera_needs_name_and_host() {
    let needed = Err(EngineError::InvalidState("name y host son requeridos".to_string()));
    assert_eq!(create_camera(&camera("", "10.0.0.1")), needed);
    assert_eq!(create_camera(&camera("gate", "")), needed);
    assert_eq!(create_camera(&camera("", "")), needed);
    assert_eq!(create_camera(&camera("gate", "10.0.0.1")), Ok("camera-gate".to_string()));
    assert_eq!(update_camera(&camera("", "h"), None), needed.clone().map(|_: String| None));
}

#[test]
fn renamed_camera_leaves_its_old_path() {
    let old = camera("gate", "10.0.0.1");
    assert_eq!(update_camera(&camera("door", "10.0.0.1"), Some(&old)), Ok(Some("gate")));
    assert_eq!(update_camera(&camera("gate", "10.0.0.9"), Some(&old)), Ok(None));
    assert_eq!(update_camera(&camera("gate", "10.0.0.9"), None), Ok(None));
}

#[test]
fn uniqueness_is_told_in_plain_words() {
    assert_eq!(
        storage_failure("UNIQUE constraint failed: cameras.name", "Ya existe una cámara con ese nombre"),
        EngineError::InvalidState("Ya existe una cámara con ese nombre".to_string())
    );
    assert_eq!(
        storage_failure("disk I/O error", "Ya existe una cámara con ese nombre"),
        EngineError::InvalidState("disk I/O error".to_string())
    );
    assert_eq!(
        storage_failure("unique", "dup"),
        EngineError::InvalidState("unique".to_string())
    );
    assert_eq!(storage_failure("", "dup"), EngineError::InvalidState(String::new()));
    assert_eq!(storage_failure("xUNIQUE", "dup"), EngineError::InvalidState("dup".to_string()));
}

#[test]
fn sync_summary_counts_both_outcomes() {
    assert_eq!(
        sync_all_cameras(&vec![true, false, true, true]),
        "Sync completado: 3 cámaras sincronizadas, 1 errores"
    );
    assert_eq!(sync_all_cameras(&vec![]), "Sync completado: 0 cámaras sincronizadas, 0 errores");
    assert_eq!(
        sync_all_cameras(&vec![false; 12]),
        "Sync completado: 0 cámaras sincronizadas, 12 errores"
    );
}

#[test]
fn control_plane_addresses() {
    assert_eq!(
        path_url_of("http://mediamtx:9997", "add", "gate"),
        "http://mediamtx:9997/v3/config/paths/add/gate"
    );
    assert_eq!(
        path_url_of("http://mediamtx:9997", "patch", "gate"),
        "http://mediamtx:9997/v3/config/paths/patch/gate"
    );
    assert_eq!(
        path_url_of("http://mediamtx:9997", "delete", "gate"),
        "http://mediamtx:9997/v3/config/paths/delete/gate"
    );
    assert_eq!(paths_list_url("http://mediamtx:9997"), "http://mediamtx:9997/v3/paths/list");
}

#[test]
fn a_refused_add_is_followed_by_a_patch() {
    assert_eq!(after_add(Ok(true)), AfterAdd::Done);
    assert_eq!(after_add(Ok(false)), AfterAdd::Patch);
    assert_eq!(after_add(Err("timeout".to_string())), AfterAdd::Failed("timeout".to_string()));
    assert_eq!(after_patch(Ok(true)), Ok(()));
    assert_eq!(after_patch(Ok(false)), Err("Error sincronizando con MediaMTX".to_string()));
    assert_eq!(
        after_patch(Err("timeout".to_string())),
        Err("Error sincronizando con MediaMTX".to_string())
    );
}

#[test]
fn statuses_skip_nameless_paths() {
    let items = vec![
        (Some("gate".to_string()), Some(true)),
        (None, Some(true)),
        (Some("door".to_string()), None),
        (Some("yard".to_string()), Some(false)),
    ];
    assert_eq!(
        camera_statuses(&items),
        vec![
            CameraStatus { name: "gate".to_string(), ready: true },
            CameraStatus { name: "door".to_string(), ready: false },
            CameraStatus { name: "yard".to_string(), ready: false },
        ]
    );
    assert_eq!(camera_statuses(&Vec::new()), Vec::<CameraStatus>::new());
}

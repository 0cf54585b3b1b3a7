use cam_manager::capture::{
    capture_file_path, capture_record, capture_record_with, get_thumbnail_setting,
    plan_screenshot, screenshot_report, take_screenshot, take_screenshot_at, thumbnail_file,
    thumbnail_link, toggle_thumbnails,
};
use cam_manager::error::EngineError;
use cam_manager::models::{Camera, Capture};

fn camera(name: &str) -> Camera {
    Camera {
        id: 7,
        name: name.to_string(),
        host: "10.0.0.30".to_string(),
        port: 554,
        username: String::new(),
        password: String::new(),
        path: "/stream".to_string(),
        protocol: "rtsp".to_string(),
        enabled: true,
        record: true,
        source_on_demand: false,
        location: String::new(),
        area: String::new(),
        created_at: None,
        updated_at: None,
    }
}

fn strings(items: &[&str]) -> Vec<String> {
    items.iter().map(|s| s.to_string()).collect()
}

#[test]
fn screenshot_goes_into_a_dated_directory() {
    let plan = plan_screenshot("gate", 0, "2024-03-05", "14-07-09");
    assert_eq!(plan.dir, "/app/data/captures/gate/2024-03-05");
    assert_eq!(plan.filename, "screenshot_14-07-09.jpg");
    assert_eq!(plan.file_path, "/app/data/captures/gate/2024-03-05/screenshot_14-07-09.jpg");
    assert_eq!(plan.relative_path, "gate/2024-03-05/screenshot_14-07-09.jpg");
    assert_eq!(
        plan.args,
        strings(&[
            "-y",
            "-i", "http://localhost:8888/gate/",
            "-frames:v", "1",
            "-q:v", "2",
            "/app/data/captures/gate/2024-03-05/screenshot_14-07-09.jpg",
            "-timeout", "5000000",
        ])
    );
}

#[test]
fn screenshot_at_a_moment_uses_the_utc_calendar() {
    // 2024-03-05 14:07:09.5 UTC
    let now: i128 = 1_709_647_629_500_000_000;
    let plan = take_screenshot_at(Some(&camera("gate")), now).unwrap();
    assert_eq!(plan, plan_screenshot("gate", now, "2024-03-05", "14-07-09"));
    let epoch = take_screenshot_at(Some(&camera("gate")), 0).unwrap();
    assert_eq!(epoch.relative_path, "gate/1970-01-01/screenshot_00-00-00.jpg");
    let before = take_screenshot_at(Some(&camera("gate")), -1).unwrap();
    assert_eq!(before.relative_path, "gate/1969-12-31/screenshot_23-59-59.jpg");
}

#[test]
fn screenshot_at_a_moment_off_the_calendar_has_empty_texts() {
    let plan = take_screenshot_at(Some(&camera("gate")), i128::MAX).unwrap();
    assert_eq!(plan, plan_screenshot("gate", i128::MAX, "", ""));
    assert_eq!(plan.relative_path, "gate//screenshot_.jpg");
}

#[test]
fn screenshot_of_an_absent_camera_is_not_found() {
    let r = take_screenshot_at(None, 0);
    assert_eq!(r, Err(EngineError::NotFound("Cámara no encontrada".to_string())));
    assert_eq!(r.unwrap_err().status(), 404);
    assert_eq!(take_screenshot(None), Err(EngineError::NotFound("Cámara no encontrada".to_string())));
}

#[test]
fn screenshot_at_the_clock_says_its_moment() {
    let plan = take_screenshot(Some(&camera("gate"))).unwrap();
    assert!(plan.taken_at > 1_600_000_000_000_000_000);
    assert_eq!(Ok(plan.clone()), take_screenshot_at(Some(&camera("gate")), plan.taken_at));
}

#[test]
fn failure_shows_the_first_200_characters_only() {
    assert_eq!(screenshot_report(Ok(true), "warnings"), Ok(()));
    assert_eq!(
        screenshot_report(Ok(false), "Connection refused"),
        Err(EngineError::InvocationFailed(
            "Error capturando screenshot: Connection refused".to_string()
        ))
    );
    let long: String = "é".repeat(150) + &"x".repeat(150);
    let shown: String = "é".repeat(150) + &"x".repeat(50);
    assert_eq!(
        screenshot_report(Ok(false), &long),
        Err(EngineError::InvocationFailed(format!("Error capturando screenshot: {}", shown)))
    );
    let exact: String = "y".repeat(200);
    assert_eq!(
        screenshot_report(Ok(false), &exact),
        Err(EngineError::InvocationFailed(format!("Error capturando screenshot: {}", exact)))
    );
    assert_eq!(
        screenshot_report(Ok(false), ""),
        Err(EngineError::InvocationFailed("Error capturando screenshot: ".to_string()))
    );
    let r = screenshot_report(Err("No such file".to_string()), "");
    assert_eq!(r, Err(EngineError::InvocationFailed("ffmpeg no disponible".to_string())));
    assert_eq!(r.unwrap_err().status(), 500);
}

#[test]
fn record_of_a_screenshot() {
    let now: i128 = 1_709_647_629_500_000_000;
    let plan = take_screenshot_at(Some(&camera("gate")), now).unwrap();
    let record = capture_record(31, 7, "gate", &plan, 2048);
    assert_eq!(
        record,
        Capture {
            id: 31,
            camera_id: 7,
            camera_name: "gate".to_string(),
            capture_type: "screenshot".to_string(),
            file_path: "gate/2024-03-05/screenshot_14-07-09.jpg".to_string(),
            file_size: 2048,
            created_at: Some("2024-03-05T14:07:09.5Z".to_string()),
        }
    );
    let whole = take_screenshot_at(Some(&camera("gate")), 1_709_647_629_000_000_000).unwrap();
    assert_eq!(
        capture_record(1, 7, "gate", &whole, 0).created_at,
        Some("2024-03-05T14:07:09Z".to_string())
    );
    let given = capture_record_with(31, 7, "gate", &plan, 2048, "then".to_string());
    assert_eq!(given.created_at, Some("then".to_string()));
    assert_eq!(given.file_path, record.file_path);
}

#[test]
fn record_of_a_moment_off_the_calendar_has_an_empty_time() {
    let plan = plan_screenshot("gate", i128::MAX, "", "");
    assert_eq!(capture_record(1, 7, "gate", &plan, 0).created_at, Some(String::new()));
}

#[test]
fn paths_of_stored_files() {
    assert_eq!(
        capture_file_path("gate/2024-03-05/screenshot_14-07-09.jpg"),
        "/app/data/captures/gate/2024-03-05/screenshot_14-07-09.jpg"
    );
    assert_eq!(thumbnail_file("gate"), "/app/data/thumbnails/gate.jpg");
    assert_eq!(thumbnail_link("gate"), "/data/thumbnails/gate.jpg");
}

#[test]
fn thumbnails_are_on_unless_stored_otherwise() {
    assert!(get_thumbnail_setting(None));
    assert!(get_thumbnail_setting(Some("true")));
    assert!(!get_thumbnail_setting(Some("false")));
    assert!(!get_thumbnail_setting(Some("TRUE")));
    assert!(!get_thumbnail_setting(Some("")));
    assert_eq!(toggle_thumbnails(None), ("false", false));
    assert_eq!(toggle_thumbnails(Some("true")), ("false", false));
    assert_eq!(toggle_thumbnails(Some("false")), ("true", true));
    assert_eq!(toggle_thumbnails(Some("anything")), ("true", true));
}

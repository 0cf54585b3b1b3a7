use cam_manager::thumbnail::{
    capture_report, capture_thumbnail, cleanup_old_thumbnails, get_latest_thumbnail, join_path,
    plan_thumbnail, thumbnail_filename, thumbnail_timestamp, SnapshotRegistry, INTERVAL_SECONDS,
    RETENTION,
};

fn strings(items: &[&str]) -> Vec<String> {
    items.iter().map(|s| s.to_string()).collect()
}

#[test]
fn artifact_name_holds_source_and_timestamp() {
    assert_eq!(thumbnail_filename(7, 1700000000), "camera_7_thumb_1700000000.jpg");
    assert_eq!(thumbnail_filename(0, 0), "camera_0_thumb_0.jpg");
    assert_eq!(thumbnail_filename(-3, -1), "camera_-3_thumb_-1.jpg");
}

#[test]
fn timestamp_is_read_back_from_the_name() {
    assert_eq!(thumbnail_timestamp("camera_7_thumb_1700000000.jpg", 7), Some(1700000000));
    assert_eq!(thumbnail_timestamp(&thumbnail_filename(12, 99), 12), Some(99));
    assert_eq!(thumbnail_timestamp("camera_7_thumb_0.jpg", 7), Some(0));
    assert_eq!(
        thumbnail_timestamp("camera_7_thumb_18446744073709551615.jpg", 7),
        Some(u64::MAX)
    );
    assert_eq!(thumbnail_timestamp("camera_7_thumb_+5.jpg", 7), Some(5));
    assert_eq!(thumbnail_timestamp("camera_7_thumb_005.jpg", 7), Some(5));
}

#[test]
fn other_names_are_no_artifacts_of_the_source() {
    assert_eq!(thumbnail_timestamp("camera_7_thumb_1700000000.jpg", 8), None);
    assert_eq!(thumbnail_timestamp("camera_71_thumb_5.jpg", 7), None);
    assert_eq!(thumbnail_timestamp("camera_7_thumb_.jpg", 7), None);
    assert_eq!(thumbnail_timestamp("camera_7_thumb_5.png", 7), None);
    assert_eq!(thumbnail_timestamp("camera_7_thumb_5.jpg.tmp", 7), None);
    assert_eq!(thumbnail_timestamp("camera_7_thumb_-5.jpg", 7), None);
    assert_eq!(thumbnail_timestamp("camera_7_thumb_18446744073709551616.jpg", 7), None);
    assert_eq!(thumbnail_timestamp("camera_7_thumb_5a.jpg", 7), None);
    assert_eq!(thumbnail_timestamp("xcamera_7_thumb_5.jpg", 7), None);
    assert_eq!(thumbnail_timestamp("", 7), None);
    assert_eq!(thumbnail_timestamp(".jpg", 7), None);
    assert_eq!(thumbnail_timestamp("camera_7_thumb_", 7), None);
}

#[test]
fn retention_keeps_the_most_recent() {
    let names = strings(&[
        "camera_1_thumb_100.jpg",
        "camera_1_thumb_400.jpg",
        "camera_2_thumb_50.jpg",
        "camera_1_thumb_300.jpg",
        "notes.txt",
        "camera_1_thumb_200.jpg",
        "camera_1_thumb_500.jpg",
    ]);
    assert_eq!(
        cleanup_old_thumbnails(1, &names, 3),
        strings(&["camera_1_thumb_100.jpg", "camera_1_thumb_200.jpg"])
    );
    assert_eq!(cleanup_old_thumbnails(1, &names, 5), Vec::<String>::new());
    assert_eq!(cleanup_old_thumbnails(1, &names, 10), Vec::<String>::new());
    assert_eq!(
        cleanup_old_thumbnails(1, &names, 0),
        strings(&[
            "camera_1_thumb_100.jpg",
            "camera_1_thumb_400.jpg",
            "camera_1_thumb_300.jpg",
            "camera_1_thumb_200.jpg",
            "camera_1_thumb_500.jpg",
        ])
    );
    assert_eq!(cleanup_old_thumbnails(2, &names, 1), Vec::<String>::new());
    assert_eq!(cleanup_old_thumbnails(2, &names, 0), strings(&["camera_2_thumb_50.jpg"]));
    assert_eq!(cleanup_old_thumbnails(3, &names, 0), Vec::<String>::new());
    assert_eq!(cleanup_old_thumbnails(1, &Vec::new(), 10), Vec::<String>::new());
}

#[test]
fn retention_after_many_ticks_leaves_the_last_ten() {
    let mut dir: Vec<String> = strings(&["camera_2_thumb_1.jpg", "readme"]);
    for tick in 0..25i64 {
        let job = plan_thumbnail(1, "camera-gate", "/thumbs", 1_700_000_000 + tick * 60);
        dir.push(job.filename);
        let doomed = cleanup_old_thumbnails(1, &dir, RETENTION);
        dir.retain(|name| !doomed.contains(name));
        let mine = dir.iter().filter(|n| thumbnail_timestamp(n, 1).is_some()).count();
        assert_eq!(mine, std::cmp::min(tick as usize + 1, RETENTION));
    }
    let expected: Vec<String> = strings(&["camera_2_thumb_1.jpg", "readme"])
        .into_iter()
        .chain((15..25i64).map(|tick| thumbnail_filename(1, 1_700_000_000 + tick * 60)))
        .collect();
    assert_eq!(dir, expected);
}

#[test]
fn equal_timestamps_keep_the_first_listed() {
    let names = strings(&["camera_1_thumb_5.jpg", "camera_1_thumb_05.jpg", "camera_1_thumb_+5.jpg"]);
    assert_eq!(
        cleanup_old_thumbnails(1, &names, 1),
        strings(&["camera_1_thumb_05.jpg", "camera_1_thumb_+5.jpg"])
    );
    assert_eq!(
        get_latest_thumbnail(1, &names),
        Some("/data/thumbnails/camera_1_thumb_5.jpg".to_string())
    );
}

#[test]
fn latest_is_the_greatest_timestamp() {
    let names = strings(&[
        "camera_1_thumb_100.jpg",
        "camera_1_thumb_400.jpg",
        "camera_2_thumb_900.jpg",
        "camera_1_thumb_300.jpg",
    ]);
    assert_eq!(
        get_latest_thumbnail(1, &names),
        Some("/data/thumbnails/camera_1_thumb_400.jpg".to_string())
    );
    assert_eq!(
        get_latest_thumbnail(2, &names),
        Some("/data/thumbnails/camera_2_thumb_900.jpg".to_string())
    );
    assert_eq!(get_latest_thumbnail(3, &names), None);
    assert_eq!(get_latest_thumbnail(1, &Vec::new()), None);
}

#[test]
fn capture_command_takes_one_frame() {
    let job = plan_thumbnail(7, "camera-gate", "/app/data/thumbnails", 1700000000);
    assert_eq!(job.timestamp, 1700000000);
    assert_eq!(job.filename, "camera_7_thumb_1700000000.jpg");
    assert_eq!(job.output_path, "/app/data/thumbnails/camera_7_thumb_1700000000.jpg");
    assert_eq!(
        job.args,
        strings(&[
            "-rtsp_transport", "tcp",
            "-i", "http://localhost:8889/camera-gate",
            "-vframes", "1",
            "-q:v", "2",
            "-y",
            "/app/data/thumbnails/camera_7_thumb_1700000000.jpg",
        ])
    );
}

#[test]
fn capture_at_the_clock_uses_its_own_timestamp() {
    let job = capture_thumbnail(7, "camera-gate", "/thumbs");
    assert!(job.timestamp > 1_600_000_000);
    assert_eq!(job, plan_thumbnail(7, "camera-gate", "/thumbs", job.timestamp));
}

#[test]
fn paths_are_joined_with_one_separator() {
    assert_eq!(join_path("/a/b", "c.jpg"), "/a/b/c.jpg");
    assert_eq!(join_path("/a/b/", "c.jpg"), "/a/b/c.jpg");
    assert_eq!(join_path("", "c.jpg"), "c.jpg");
    assert_eq!(join_path("/", "c.jpg"), "/c.jpg");
    assert_eq!(join_path("rel", "c.jpg"), "rel/c.jpg");
    assert_eq!(
        join_path("/a/b", "c.jpg"),
        std::path::Path::new("/a/b").join("c.jpg").to_str().unwrap()
    );
}

#[test]
fn capture_report_names_each_failure() {
    assert_eq!(capture_report(Ok(true), "exit status: 0"), Ok(()));
    assert_eq!(
        capture_report(Ok(false), "exit status: 1"),
        Err("FFmpeg failed with status: exit status: 1".to_string())
    );
    assert_eq!(
        capture_report(Err("not found".to_string()), ""),
        Err("FFmpeg execution failed: not found".to_string())
    );
}

#[test]
fn cadence_and_retention() {
    assert_eq!(INTERVAL_SECONDS, 60);
    assert_eq!(RETENTION, 10);
}

#[test]
fn a_source_has_one_task_at_most() {
    let mut registry = SnapshotRegistry::new();
    assert!(!registry.is_registered(7));
    assert!(registry.register_source(7));
    assert!(registry.is_registered(7));
    assert!(!registry.register_source(7));
    assert!(registry.register_source(8));
    assert!(registry.is_registered(7));
    assert!(registry.is_registered(8));
    assert!(!registry.is_registered(9));
}

#[test]
fn a_deregistered_source_has_no_task() {
    let mut registry = SnapshotRegistry::new();
    assert!(!registry.deregister_source(7));
    assert!(registry.register_source(7));
    assert!(registry.register_source(8));
    assert!(registry.deregister_source(7));
    assert!(!registry.is_registered(7));
    assert!(registry.is_registered(8));
    assert!(!registry.deregister_source(7));
    assert!(registry.register_source(7));
    assert!(registry.is_registered(7));
}

#[test]
fn timestamps_are_read_by_prefix_suffix_and_number() {
    let names = [
        "camera_7_thumb_1700000000.jpg",
        "camera_7_thumb_.jpg",
        "camera_7_thumb_+12.jpg",
        "camera_7_thumb_12.jpg.jpg",
        "camera_7_thumb_12.JPG",
        "camera_7_thumb_.jpg.jpg",
        "camera_70_thumb_12.jpg",
        "camera_7_thumb_ 12.jpg",
        "camera_7_thumb_99999999999999999999.jpg",
        "camera_7_thumb_",
        ".jpg",
        "",
    ];
    for name in names {
        let pattern = "camera_7_thumb_";
        let expected = if name.starts_with(pattern) && name.ends_with(".jpg") {
            name.strip_prefix(pattern)
                .and_then(|s| s.strip_suffix(".jpg"))
                .and_then(|s| s.parse::<u64>().ok())
        } else {
            None
        };
        assert_eq!(thumbnail_timestamp(name, 7), expected, "for {:?}", name);
    }
}

#[test]
fn one_run_leaves_keep_artifacts_whatever_the_order() {
    let names = strings(&[
        "camera_1_thumb_30.jpg",
        "other.txt",
        "camera_1_thumb_10.jpg",
        "camera_1_thumb_030.jpg",
        "camera_2_thumb_99.jpg",
        "camera_1_thumb_50.jpg",
        "camera_1_thumb_+30.jpg",
        "camera_1_thumb_20.jpg",
        "camera_1_thumb_x.jpg",
    ]);
    let artifacts = names.iter().filter(|n| thumbnail_timestamp(n, 1).is_some()).count();
    assert_eq!(artifacts, 6);
    for keep in 0..9usize {
        let doomed = cleanup_old_thumbnails(1, &names, keep);
        let left: Vec<&String> = names.iter().filter(|n| !doomed.contains(n)).collect();
        let kept = left.iter().filter(|n| thumbnail_timestamp(n, 1).is_some()).count();
        assert_eq!(kept, std::cmp::min(artifacts, keep));
        assert_eq!(doomed.len(), artifacts - std::cmp::min(artifacts, keep));
        assert_eq!(left.len() - kept, 3);
        let oldest_kept =
            left.iter().filter_map(|n| thumbnail_timestamp(n, 1)).min().unwrap_or(u64::MAX);
        assert!(doomed.iter().all(|n| thumbnail_timestamp(n, 1).unwrap() <= oldest_kept));
    }
    assert_eq!(
        cleanup_old_thumbnails(1, &names, 2),
        strings(&[
            "camera_1_thumb_10.jpg",
            "camera_1_thumb_030.jpg",
            "camera_1_thumb_+30.jpg",
            "camera_1_thumb_20.jpg",
        ])
    );
}

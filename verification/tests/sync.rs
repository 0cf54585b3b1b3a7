use cam_manager::models::SyncLog;
use cam_manager::sync::{parse_sync_line, read_sync_logs, split_lines, sync_counts};

fn log(timestamp: &str, level: &str, message: &str) -> SyncLog {
    SyncLog {
        timestamp: timestamp.to_string(),
        message: message.to_string(),
        level: level.to_string(),
    }
}

fn lines(content: &str) -> Vec<String> {
    split_lines(content).into_iter().map(|l| l.into_iter().collect()).collect()
}

#[test]
fn bracketed_line_gives_time_level_and_message() {
    assert_eq!(
        parse_sync_line("[2026-02-17 06:18:24] [INFO] Backup started"),
        log("2026-02-17 06:18:24", "INFO", "Backup started")
    );
    assert_eq!(
        parse_sync_line("[2026-02-17 06:18:24] [ERROR]   disk full  "),
        log("2026-02-17 06:18:24", "ERROR", "disk full")
    );
    assert_eq!(parse_sync_line("[t] [L] a] [b"), log("t", "L", "a] [b"));
    assert_eq!(parse_sync_line("[] [] x"), log("", "", "x"));
}

#[test]
fn bracketed_line_with_nothing_after_the_level() {
    assert_eq!(parse_sync_line("[t] [INFO]"), log("t", "INFO", ""));
    assert_eq!(parse_sync_line("[t] [INFO] "), log("t", "INFO", ""));
    assert_eq!(parse_sync_line("[t] [INFO]x"), log("t", "INFO", ""));
    assert_eq!(parse_sync_line("[t] [INFO]xy"), log("t", "INFO", "y"));
}

#[test]
fn unfinished_brackets_keep_the_whole_line() {
    assert_eq!(parse_sync_line("[t] [INFO message"), log("t", "INFO", "[t] [INFO message"));
    assert_eq!(parse_sync_line("[no closing"), log("", "INFO", "[no closing"));
    assert_eq!(parse_sync_line("[t] INFO : x"), log("", "INFO", "[t] INFO : x"));
    assert_eq!(parse_sync_line("["), log("", "INFO", "["));
}

#[test]
fn marked_lines_give_level_and_message() {
    assert_eq!(
        parse_sync_line("2026/02/17 06:18:24 INFO  : file.mp4: Copied (new)"),
        log("", "INFO", "2026/02/17 06:18:24 INFO  : file.mp4: Copied (new)")
    );
    assert_eq!(
        parse_sync_line("2026/02/17 INFO : file.mp4: Copied (new)"),
        log("", "INFO", "file.mp4: Copied (new)")
    );
    assert_eq!(parse_sync_line("x ERROR : failed to copy"), log("", "ERROR", "failed to copy"));
    assert_eq!(parse_sync_line("x NOTICE: done"), log("", "NOTICE", "done"));
    assert_eq!(parse_sync_line("INFO :a INFO :b"), log("", "INFO", "a"));
    assert_eq!(parse_sync_line("ERROR : a INFO : b"), log("", "INFO", "b"));
    assert_eq!(parse_sync_line("NOTICE: a ERROR : b"), log("", "ERROR", "b"));
    assert_eq!(parse_sync_line("INFO :"), log("", "INFO", ""));
}

#[test]
fn plain_lines_are_info() {
    assert_eq!(parse_sync_line("  just text  "), log("", "INFO", "just text"));
    assert_eq!(parse_sync_line(""), log("", "INFO", ""));
    assert_eq!(parse_sync_line("   "), log("", "INFO", ""));
    assert_eq!(parse_sync_line(" [t] [INFO] x"), log("", "INFO", "[t] [INFO] x"));
}

#[test]
fn lines_split_as_the_standard_library_does() {
    for content in [
        "",
        "a",
        "a\n",
        "a\nb",
        "a\r\nb\r\n",
        "a\rb\n",
        "a\r",
        "\n",
        "\n\n",
        "\r\n",
        "a\n\nb",
        "a\r\r\nb",
        "último\nñ\r\n",
    ] {
        let expected: Vec<String> = content.lines().map(|l| l.to_string()).collect();
        assert_eq!(lines(content), expected, "for {:?}", content);
    }
}

#[test]
fn the_last_lines_come_first() {
    let content = "[t1] [INFO] one\n[t2] [ERROR] two\nplain three\n";
    assert_eq!(
        read_sync_logs(content, 100),
        vec![log("", "INFO", "plain three"), log("t2", "ERROR", "two"), log("t1", "INFO", "one")]
    );
    assert_eq!(
        read_sync_logs(content, 2),
        vec![log("", "INFO", "plain three"), log("t2", "ERROR", "two")]
    );
    assert_eq!(read_sync_logs(content, 0), Vec::<SyncLog>::new());
    assert_eq!(read_sync_logs("", 100), Vec::<SyncLog>::new());
}

#[test]
fn counts_of_copies_and_errors() {
    let content = "INFO : a: Copied (new)\n\
                   INFO : b: Copied (replaced existing)\n\
                   ERROR : c: failed\n\
                   INFO : d: Copied (new) after ERROR\n\
                   nothing\n";
    assert_eq!(sync_counts(content), (3, 2));
    assert_eq!(sync_counts(""), (0, 0));
    assert_eq!(sync_counts("Copied (new"), (0, 0));
}

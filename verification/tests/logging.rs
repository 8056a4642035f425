use teams_usb_fix::logging::{
    hook_log_line, injection_label, log_dir, timestamp, watcher_console_line, watcher_log_line,
    LocalTime, LogBase, LOG_FILE_NAME,
};

fn moment() -> LocalTime {
    LocalTime { year: 2026, month: 3, day: 1, hour: 16, minute: 5, second: 9, millis: 42 }
}

#[test]
fn log_lies_under_local_application_data() {
    let dir = log_dir(Some("C:\\Users\\me\\AppData\\Local".to_string()));
    assert_eq!(dir.name, "teams-usb-fix");
    assert!(matches!(dir.base, LogBase::LocalAppData(path) if path == "C:\\Users\\me\\AppData\\Local"));
    assert_eq!(LOG_FILE_NAME, "teams-usb-fix.log");
}

#[test]
fn log_lies_under_temporary_files_otherwise() {
    let dir = log_dir(None);
    assert_eq!(dir.name, "teams-usb-fix");
    assert!(matches!(dir.base, LogBase::TempDir));
}

#[test]
fn time_stamps() {
    assert_eq!(timestamp(&moment()), "2026-03-01 16:05:09.042");
    let odd = LocalTime { year: 12345, month: 100, day: 0, hour: 7, minute: 0, second: 0, millis: 1000 };
    assert_eq!(
        timestamp(&odd),
        format!("{:04}-{:02}-{:02} {:02}:{:02}:{:02}.{:03}", 12345, 100, 0, 7, 0, 0, 1000)
    );
}

#[test]
fn injections_are_noted_with_hour_and_minute() {
    assert_eq!(injection_label(1234, &moment()), "PID 1234 at 16:05");
}

#[test]
fn long_year_shifts_the_short_time() {
    let late = LocalTime { year: 10000, ..moment() };
    assert_eq!(injection_label(1, &late), format!("PID 1 at {}", &timestamp(&late)[11..16]));
}

#[test]
fn log_lines() {
    assert_eq!(hook_log_line("now", "message"), "[now] message");
    assert_eq!(watcher_log_line("now", "message"), "[now] [watcher] message");
    assert_eq!(watcher_console_line("message"), "[watcher] message");
}

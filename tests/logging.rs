use std::path::PathBuf;

use ample::logging::{
    log_id_from_group, log_pattern, parse_decimal, LogOp, RollingLogFile, RollingLogger, LOG_PREFIX, MAX_FILES, MAX_FILE_SIZE,
};

fn logger(max_files: u64) -> RollingLogger {
    RollingLogger::new(PathBuf::from("/tmp/logs"), PathBuf::from("ample.log"), 100, max_files)
}

fn describe(ops: &[LogOp]) -> Vec<String> {
    ops.iter()
        .map(|op| match op {
            LogOp::Rename(a, b) => format!("mv {a} {b}"),
            LogOp::Create(a) => format!("touch {a}"),
            LogOp::Remove(a) => format!("rm {a}"),
        })
        .collect()
}

#[test]
fn log_names() {
    assert_eq!(RollingLogFile { file_id: 0 }.create_log_name("ample"), "ample.log");
    assert_eq!(RollingLogFile { file_id: 3 }.create_log_name("ample"), "ample-3.log");
    assert_eq!(RollingLogFile { file_id: 12 }.create_log_name("temp-ample"), "temp-ample-12.log");
}

#[test]
fn directory_entries_to_ids() {
    let l = logger(3);
    assert_eq!(l.log_file_id("ample.log"), Some(0));
    assert_eq!(l.log_file_id("ample-2.log"), Some(2));
    assert_eq!(l.log_file_id("ample-12.log"), Some(12));
    assert_eq!(l.log_file_id("notes.txt"), None);
    assert_eq!(l.log_file_id("ample-99999999999999999999.log"), None);
}

#[test]
fn decimal_parsing() {
    assert_eq!(parse_decimal("0"), Some(0));
    assert_eq!(parse_decimal("042"), Some(42));
    assert_eq!(parse_decimal("18446744073709551615"), Some(u64::MAX));
    assert_eq!(parse_decimal("18446744073709551616"), None);
    assert_eq!(parse_decimal(""), None);
    assert_eq!(parse_decimal("4a"), None);
    assert_eq!(parse_decimal("+4"), None);
}

#[test]
fn line_end_triggers_flush() {
    let mut l = logger(3);
    assert!(!l.buffer(b"hello"));
    assert!(l.buffer(b"\n"));
    assert!(!l.buffer(b"x\n"));
    assert_eq!(l.take_buffer(), b"hello\nx\n".to_vec());
    assert_eq!(l.take_buffer(), Vec::<u8>::new());
}

#[test]
fn rotation_threshold() {
    let l = logger(3);
    assert!(!l.needs_rotation(60, 40));
    assert!(l.needs_rotation(60, 41));
    assert!(l.needs_rotation(u64::MAX, 0));
    assert!(!l.needs_rotation(0, 0));
}

#[test]
fn rotation_shifts_and_drops_oldest() {
    let l = logger(3);
    let ops = l.rotation_plan(&vec![0, 2, 1]);
    assert_eq!(
        describe(&ops),
        vec![
            "mv ample.log temp-ample.log",
            "mv ample-2.log temp-ample-2.log",
            "mv ample-1.log temp-ample-1.log",
            "mv temp-ample.log ample-1.log",
            "mv temp-ample-2.log ample-3.log",
            "mv temp-ample-1.log ample-2.log",
            "touch ample.log",
            "rm ample-3.log",
        ]
    );
}

#[test]
fn rotation_keeps_files_under_limit() {
    let l = logger(3);
    let ops = l.rotation_plan(&vec![0]);
    assert_eq!(
        describe(&ops),
        vec!["mv ample.log temp-ample.log", "mv temp-ample.log ample-1.log", "touch ample.log"]
    );
    let ops = logger(3).rotation_plan(&vec![]);
    assert_eq!(describe(&ops), vec!["touch ample.log"]);
}

#[test]
fn logger_defaults() {
    assert_eq!(MAX_FILE_SIZE, 5_000_000);
    assert_eq!(MAX_FILES, 3);
    assert_eq!(LOG_PREFIX, "ample");
    let l = logger(3);
    assert_eq!(l.log_dir(), &PathBuf::from("/tmp/logs"));
    assert_eq!(l.log_file_name(), &PathBuf::from("ample.log"));
}

#[test]
fn captured_group_to_id() {
    assert_eq!(log_id_from_group(None), None);
    assert_eq!(log_id_from_group(Some(String::new())), Some(0));
    assert_eq!(log_id_from_group(Some("7".to_owned())), Some(7));
    assert_eq!(log_id_from_group(Some("\u{663}".to_owned())), None);
}

#[test]
fn log_name_pattern_text() {
    assert_eq!(log_pattern("ample"), r"ample-?(\d*).log");
    assert_eq!(log_pattern(""), r"-?(\d*).log");
}

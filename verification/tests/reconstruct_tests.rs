use last_core::record::{Record, RecordKind, classify};
use last_core::reconstruct::Last;
use last_core::timefmt::Timestamp;

fn ts(secs: i64, month: u8, day: u8, hour: u8, minute: u8) -> Timestamp {
    Timestamp { secs, nanos: 0, month, day, hour, minute }
}

fn rec(user: &str, tty: &str, host: &str, pid: i32, time: Timestamp, is_user: bool) -> Record {
    Record {
        user: user.to_string(),
        tty_device: tty.to_string(),
        host: host.to_string(),
        pid,
        login_time: time,
        is_user_process: is_user,
    }
}

fn fresh(system: bool) -> Last {
    Last {
        last_reboot_ut: None,
        last_shutdown_ut: None,
        last_dead_ut: Vec::new(),
        system,
        time_format: "short".to_string(),
    }
}

fn fmt_line(user: &str, line: &str, host: &str, time: &str, end: &str, delta: &str) -> String {
    format!(
        "{:<8} {:<12} {:<16} {:<12} - {:<8} {:^6}",
        user, line, host, time, end, delta
    )
    .trim_end()
    .to_string()
}

#[test]
fn classify_kinds() {
    let t = ts(0, 1, 1, 0, 0);
    assert_eq!(classify(&rec("alice", "tty1", "", 7, t, true)), RecordKind::UserSession);
    assert_eq!(classify(&rec("runlevel", "~", "", 51, t, false)), RecordKind::RunLevelChange);
    assert_eq!(classify(&rec("shutdown", "~", "", 0, t, false)), RecordKind::Shutdown);
    assert_eq!(classify(&rec("reboot", "~", "", 0, t, false)), RecordKind::Reboot);
    assert_eq!(classify(&rec("", "tty1", "", 0, t, false)), RecordKind::DeadProcess);
    assert_eq!(classify(&rec("ftp", "tty1", "", 0, t, false)), RecordKind::Other);
}

#[test]
fn still_logged_in_session() {
    let mut last = fresh(false);
    let records = vec![rec("alice", "tty1", "", 1, ts(0, 1, 1, 0, 0), true)];
    let lines = last.exec(records);
    assert_eq!(lines.len(), 1);
    assert_eq!(
        lines[0],
        fmt_line("alice", "tty1", "", "Jan  1 00:00", " - still logged in", "")
    );
}

#[test]
fn dead_process_closes_session() {
    let mut last = fresh(false);
    let records = vec![
        rec("alice", "tty1", "", 1, ts(10, 1, 1, 0, 0), true),
        rec("", "tty2", "", 0, ts(50, 1, 1, 0, 0), false),
        rec("", "tty1", "", 0, ts(3730, 1, 1, 1, 2), false),
    ];
    let lines = last.exec(records);
    // the tty2 logout stays unmatched and emits nothing; the tty1 logout
    // closes alice's session 3720 seconds after it began
    assert_eq!(lines.len(), 1);
    assert_eq!(
        lines[0],
        fmt_line("alice", "tty1", "", "Jan  1 00:00", "01:02", "(01:02)")
    );
}

#[test]
fn end_to_end_reboot_history() {
    let mut last = fresh(false);
    let records = vec![
        rec("alice", "tty1", "", 1, ts(0, 1, 1, 0, 0), true),
        rec("reboot", "~", "", 0, ts(10, 1, 1, 0, 0), false),
        rec("bob", "tty1", "", 2, ts(20, 1, 1, 0, 0), true),
    ];
    let lines = last.exec(records);
    assert_eq!(lines.len(), 3);
    assert_eq!(
        lines[0],
        fmt_line("bob", "tty1", "", "Jan  1 00:00", " - still logged in", "")
    );
    assert_eq!(
        lines[1],
        fmt_line("reboot", "system boot", "", "Jan  1 00:00", " - still running", "")
    );
    // with only the reboot known, the later-or-equal comparison picks the
    // shutdown branch and measures to the epoch stand-in
    assert_eq!(
        lines[2],
        fmt_line("alice", "tty1", "", "Jan  1 00:00", "down", "(00:00)")
    );
}

#[test]
fn lone_shutdown_marks_crash() {
    let mut last = fresh(false);
    let records = vec![
        rec("alice", "tty1", "", 1, ts(0, 1, 1, 0, 0), true),
        rec("shutdown", "~", "", 0, ts(10, 1, 1, 0, 0), false),
    ];
    let lines = last.exec(records);
    // the shutdown line itself is gated off; the unknown reboot stands in
    // as the epoch, loses the comparison, and the session is marked crash
    assert_eq!(lines.len(), 1);
    assert_eq!(
        lines[0],
        fmt_line("alice", "tty1", "", "Jan  1 00:00", "crash", "(00:00)")
    );
}

#[test]
fn shutdown_line_shown_with_system_events() {
    let mut last = fresh(true);
    let records = vec![
        rec("alice", "tty1", "", 1, ts(0, 1, 1, 0, 0), true),
        rec("shutdown", "~", "", 0, ts(10, 1, 1, 0, 0), false),
    ];
    let lines = last.exec(records);
    assert_eq!(lines.len(), 2);
    assert_eq!(
        lines[0],
        fmt_line("shutdown", "system down", "", "Jan  1 00:00", " - still running", "")
    );
    assert_eq!(
        lines[1],
        fmt_line("alice", "tty1", "", "Jan  1 00:00", "crash", "(00:00)")
    );
}

#[test]
fn reboot_shutdown_tie_resolves_down() {
    let mut last = fresh(true);
    last.last_reboot_ut = Some(rec("reboot", "~", "", 0, ts(100, 1, 1, 2, 30), false));
    last.last_shutdown_ut = Some(rec("shutdown", "~", "", 0, ts(100, 1, 1, 2, 30), false));
    let user = rec("alice", "tty1", "", 1, ts(0, 1, 1, 0, 0), true);
    let (end, delta) = last.end_state_string(&user, None);
    assert_eq!(end, "down");
    assert_eq!(delta, "(00:01)");
    // a system record shows the shutdown's clock text instead
    let run_level = rec("runlevel", "~", "", 51, ts(0, 1, 1, 0, 0), false);
    let (end2, delta2) = last.end_state_string(&run_level, None);
    assert_eq!(end2, "02:30");
    assert_eq!(delta2, "(00:01)");
}

#[test]
fn run_level_line_decodes_level() {
    let mut last = fresh(true);
    // 307 % 256 == 51, the character '3'
    let records = vec![rec("runlevel", "~", "", 307, ts(0, 1, 1, 0, 0), false)];
    let lines = last.exec(records);
    assert_eq!(lines.len(), 1);
    assert_eq!(
        lines[0],
        fmt_line("runlevel", "(to lvl 3)", "", "Jan  1 00:00", " - still running", "")
    );
}

#[test]
fn run_level_non_printable_code() {
    let mut last = fresh(true);
    // 259 % 256 == 3, a control character, shown as such
    let records = vec![rec("runlevel", "~", "", 259, ts(0, 1, 1, 0, 0), false)];
    let lines = last.exec(records);
    assert_eq!(lines.len(), 1);
    assert_eq!(
        lines[0],
        fmt_line("runlevel", "(to lvl \u{3})", "", "Jan  1 00:00", " - still running", "")
    );
}

#[test]
fn run_level_hidden_without_system_events() {
    let mut last = fresh(false);
    let records = vec![rec("runlevel", "~", "", 307, ts(0, 1, 1, 0, 0), false)];
    let lines = last.exec(records);
    assert_eq!(lines.len(), 0);
}

#[test]
fn other_records_are_dropped() {
    let mut last = fresh(true);
    let records = vec![rec("ftp", "tty9", "", 9, ts(0, 1, 1, 0, 0), false)];
    let lines = last.exec(records);
    assert_eq!(lines.len(), 0);
}

#[test]
fn rerun_yields_identical_output() {
    let records = vec![
        rec("alice", "tty1", "", 1, ts(0, 1, 1, 0, 0), true),
        rec("", "tty1", "", 0, ts(60, 1, 1, 0, 1), false),
        rec("reboot", "~", "", 0, ts(120, 1, 1, 0, 2), false),
        rec("bob", "tty2", "host", 2, ts(180, 1, 1, 0, 3), true),
    ];
    let mut first = fresh(true);
    let out1 = first.exec(records.clone());
    let mut second = fresh(true);
    let out2 = second.exec(records);
    assert_eq!(out1, out2);
}

#[test]
fn output_reads_newest_first() {
    let mut last = fresh(false);
    let records = vec![
        rec("alice", "tty1", "", 1, ts(0, 1, 1, 0, 0), true),
        rec("bob", "tty2", "", 2, ts(3600, 1, 1, 1, 0), true),
    ];
    let lines = last.exec(records);
    assert_eq!(lines.len(), 2);
    assert_eq!(
        lines[0],
        fmt_line("bob", "tty2", "", "Jan  1 01:00", " - still logged in", "")
    );
    assert_eq!(
        lines[1],
        fmt_line("alice", "tty1", "", "Jan  1 00:00", " - still logged in", "")
    );
}

#[test]
fn host_column_truncated_to_sixteen() {
    let mut last = fresh(false);
    let records = vec![
        rec(
            "alice",
            "tty1",
            "abcdefghijklmnopqrstuvwx",
            1,
            ts(0, 1, 1, 0, 0),
            true,
        ),
    ];
    let lines = last.exec(records);
    assert_eq!(lines.len(), 1);
    assert_eq!(
        lines[0],
        fmt_line(
            "alice",
            "tty1",
            "abcdefghijklmnop",
            "Jan  1 00:00",
            " - still logged in",
            ""
        )
    );
}

use pms_slave::meta::{empty_meta, parse_meta, RunStatus};

#[test]
fn parses_a_clean_run() {
    let log = "time:0.123\ntime-wall:0.456\ncg-mem:2048\nexitcode:0\n";
    let m = parse_meta(log).unwrap();
    assert_eq!(m.status, None);
    assert_eq!(m.time_ms, Some(123));
    assert_eq!(m.time_wall_ms, Some(456));
    assert_eq!(m.cg_mem, Some(2048));
    assert_eq!(m.exitcode, Some(0));
    assert_eq!(m.exitsig, None);
}

#[test]
fn parses_every_status_code() {
    assert_eq!(parse_meta("status:TO\n").unwrap().status, Some(RunStatus::TimedOut));
    assert_eq!(parse_meta("status:SG\n").unwrap().status, Some(RunStatus::DiedOnSignal));
    assert_eq!(parse_meta("status:RE\n").unwrap().status, Some(RunStatus::RuntimeErr));
    assert_eq!(parse_meta("status:XX\n").unwrap().status, Some(RunStatus::InternalErr));
    assert_eq!(parse_meta("status:YY\n").unwrap().status, Some(RunStatus::Unknown));
}

#[test]
fn ignores_unknown_keys_and_blank_lines() {
    let log = "\nmax-rss:992\ntime:1.5\n\nkilled:1\n";
    let m = parse_meta(log).unwrap();
    assert_eq!(m.time_ms, Some(1500));
    assert_eq!(m.max_rss, None);
    assert_eq!(m.killed, None);
}

#[test]
fn last_value_wins() {
    let m = parse_meta("time:1\ntime:2.5\n").unwrap();
    assert_eq!(m.time_ms, Some(2500));
}

#[test]
fn value_stops_at_a_second_colon() {
    let m = parse_meta("cg-mem:77:9\n").unwrap();
    assert_eq!(m.cg_mem, Some(77));
}

#[test]
fn fails_on_a_malformed_recognized_line() {
    assert_eq!(parse_meta("time\n"), None);
    assert_eq!(parse_meta("time:abc\n"), None);
    assert_eq!(parse_meta("exitcode:\n"), None);
    assert_eq!(parse_meta("cg-mem:-1\n"), None);
}

#[test]
fn empty_log_is_an_empty_record() {
    assert_eq!(parse_meta(""), Some(empty_meta()));
}

#[test]
fn parsing_twice_yields_equal_records() {
    let log = "time:0.5\nstatus:RE\nexitcode:7\n";
    assert_eq!(parse_meta(log), parse_meta(log));
}

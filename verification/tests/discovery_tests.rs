use lol_plugin::discovery::{
    buffer_units, command_line_query_status, command_line_window, next_command_line_buffer_size,
    process_source, AuthCollector, CommandLineVia, CommandLineWindowError, IncompleteClient,
    QueryStatus, RecordOutcome,
    STATUS_BUFFER_TOO_SMALL, STATUS_INFO_LENGTH_MISMATCH,
};
use lol_plugin::lcu::ClientDirFilter;

#[test]
fn process_source_text() {
    assert_eq!(
        process_source(4242, "LeagueClientUx.exe", "C:\\LoL\\LeagueClientUx.exe"),
        "pid=4242, exe_name=LeagueClientUx.exe, exe=C:\\LoL\\LeagueClientUx.exe"
    );
}

#[test]
fn single_client_is_connectable() {
    let mut c = AuthCollector::new();
    c.record_command_line(
        "c:/lol",
        "C:\\LoL",
        "pid=1",
        CommandLineVia::NtQuery,
        "x --app-port=2999 --remoting-auth-token=tok",
    );
    let r = c.into_results(None);
    assert_eq!(r.len(), 1);
    assert_eq!(r[0].0.protocol, "https");
    assert_eq!(r[0].0.port, 2999);
    assert_eq!(r[0].0.password, "tok");
    assert_eq!(r[0].1, "client_dir=C:\\LoL, sources=pid=1, via=cmdline_ntq");
}

#[test]
fn processes_of_one_directory_are_merged() {
    let mut c = AuthCollector::new();
    c.record_command_line("c:/lol", "C:\\LoL", "pid=1", CommandLineVia::NtQuery, "--app-port=1000");
    c.record_command_line("c:/lol", "C:\\LOL", "pid=2", CommandLineVia::Peb, "--remoting-auth-token=t --app-port=2000");
    c.record_command_line("c:/other", "C:\\Other", "pid=3", CommandLineVia::NtQuery, "--app-port=3000");
    c.record_command_line("c:/lol", "C:\\LoL", "pid=4", CommandLineVia::NtQuery, "no lcu args here");
    let r = c.into_results(None);
    assert_eq!(r.len(), 1);
    assert_eq!(r[0].0.port, 1000);
    assert_eq!(r[0].0.password, "t");
    assert_eq!(
        r[0].1,
        "client_dir=C:\\LoL, sources=pid=1, via=cmdline_ntq | pid=2, via=cmdline_peb"
    );
}

#[test]
fn filter_selects_directory() {
    let mut c = AuthCollector::new();
    c.record_command_line("c:/a", "C:\\A", "pid=1", CommandLineVia::NtQuery, "--app-port=1 --remoting-auth-token=x");
    c.record_command_line("c:/b/sub", "C:\\B\\sub", "pid=2", CommandLineVia::NtQuery, "--app-port=2 --remoting-auth-token=y");
    let all = c.into_results(None);
    assert_eq!(all.len(), 2);
    assert_eq!(all[0].0.port, 1);
    assert_eq!(all[1].0.port, 2);
    let f = ClientDirFilter::new("C:\\B");
    let only_b = c.into_results(Some(&f));
    assert_eq!(only_b.len(), 1);
    assert_eq!(only_b[0].0.password, "y");
}

#[test]
fn query_status_meaning() {
    assert_eq!(STATUS_BUFFER_TOO_SMALL, 0xC0000023u32 as i32);
    assert_eq!(STATUS_INFO_LENGTH_MISMATCH, 0xC0000004u32 as i32);
    assert_eq!(command_line_query_status(STATUS_BUFFER_TOO_SMALL), QueryStatus::Retry);
    assert_eq!(command_line_query_status(STATUS_INFO_LENGTH_MISMATCH), QueryStatus::Retry);
    assert_eq!(command_line_query_status(-1), QueryStatus::Failed);
    assert_eq!(command_line_query_status(0), QueryStatus::Succeeded);
    assert_eq!(command_line_query_status(1), QueryStatus::Succeeded);
}

#[test]
fn buffer_growth() {
    assert_eq!(next_command_line_buffer_size(16384, 0), (16384 + 4096) * 2);
    assert_eq!(next_command_line_buffer_size(16384, 50000), (50000 + 4096) * 2);
    assert_eq!(next_command_line_buffer_size(usize::MAX - 10, 0), usize::MAX);
    assert_eq!(buffer_units(16384), 8192);
    assert_eq!(buffer_units(5), 3);
}

#[test]
fn command_line_window_checks() {
    let base = 1000usize;
    let end = base + 64;
    assert_eq!(command_line_window(0, 1016, base, end, 32), Err(CommandLineWindowError::Empty));
    assert_eq!(command_line_window(8, 0, base, end, 32), Err(CommandLineWindowError::Empty));
    assert_eq!(command_line_window(8, 990, base, end, 32), Err(CommandLineWindowError::OutsideBuffer));
    assert_eq!(command_line_window(8, 1060, base, end, 32), Err(CommandLineWindowError::OutsideBuffer));
    assert_eq!(command_line_window(8, 1017, base, end, 32), Err(CommandLineWindowError::Misaligned));
    assert_eq!(command_line_window(8, 1016, base, end, 10), Err(CommandLineWindowError::OutOfBounds));
    assert_eq!(command_line_window(8, 1016, base, end, 32), Ok((8, 12)));
}

#[test]
fn other_processes_are_ignored() {
    let mut c = AuthCollector::new();
    let r = c.record_process(
        "notepad.exe",
        "c:/lol",
        "C:\\LoL",
        "pid=9",
        CommandLineVia::NtQuery,
        "x --app-port=2999 --remoting-auth-token=tok",
    );
    assert_eq!(r, RecordOutcome::NotClient);
    assert!(c.into_results(None).is_empty());
}

#[test]
fn record_reports_missing_args_and_conflicts() {
    let mut c = AuthCollector::new();
    let r = c.record_process("LeagueClientUx.exe", "c:/lol", "C:\\LoL", "pid=1", CommandLineVia::NtQuery, "x --y");
    assert_eq!(r, RecordOutcome::NoLcuArgs);
    let r = c.record_process("leagueclient.EXE", "c:/lol", "C:\\LoL", "pid=1", CommandLineVia::NtQuery, "x --app-port=10");
    match r {
        RecordOutcome::Recorded(k) => {
            assert_eq!(k.port, None);
            assert_eq!(k.protocol, None);
            assert!(!k.password);
        }
        other => panic!("unexpected {other:?}"),
    }
    let r = c.record_process("LeagueClientUx.exe", "c:/lol", "C:\\LoL", "pid=2", CommandLineVia::Peb, "x --app-port=11 --remoting-auth-token=t");
    match r {
        RecordOutcome::Recorded(k) => {
            assert_eq!(k.port, Some((10, 11)));
            assert!(!k.password);
        }
        other => panic!("unexpected {other:?}"),
    }
    let r = c.into_results(None);
    assert_eq!(r.len(), 1);
    assert_eq!(r[0].0.port, 10);
}

#[test]
fn incomplete_clients_are_reported() {
    let mut c = AuthCollector::new();
    c.record_command_line("c:/a", "C:\\A", "pid=1", CommandLineVia::NtQuery, "x --app-port=10");
    c.record_command_line("c:/b", "C:\\B", "pid=2", CommandLineVia::NtQuery, "x --remoting-auth-token=t");
    c.record_command_line("c:/c", "C:\\C", "pid=3", CommandLineVia::NtQuery, "x --app-port=12 --remoting-auth-token=u");
    assert_eq!(
        c.incomplete_clients(None),
        vec![
            IncompleteClient { dir: "C:\\A".to_string(), has_port: true, has_token: false },
            IncompleteClient { dir: "C:\\B".to_string(), has_port: false, has_token: true },
        ]
    );
    let f = ClientDirFilter::new("C:\\B\\");
    assert_eq!(
        c.incomplete_clients(Some(&f)),
        vec![IncompleteClient { dir: "C:\\B".to_string(), has_port: false, has_token: true }]
    );
    assert_eq!(c.into_results(None).len(), 1);
}

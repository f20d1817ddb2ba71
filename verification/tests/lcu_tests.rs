use lol_plugin::lcu::{
    accept_outcome, base_url, desired_client_dir_filter, gameflow_phase_from_response,
    gameflow_phase_url, is_league_client_process, is_success_status, path_key, probe_outcome,
    ready_check_accept_url, trim_for_log, utf16_nul_terminated_to_string, ArgsError,
    ClientDirFilter, LcuAuth, LcuError, LcuOverrides,
};

fn auth(protocol: &str, port: u16, password: &str) -> LcuAuth {
    LcuAuth { protocol: protocol.to_string(), port, password: password.to_string() }
}

fn args(list: &[&str]) -> Vec<String> {
    list.iter().map(|s| s.to_string()).collect()
}

#[test]
fn base_url_formats_protocol_and_port() {
    assert_eq!(base_url(&auth("https", 54321, "x")), "https://127.0.0.1:54321");
    assert_eq!(base_url(&auth("http", 0, "x")), "http://127.0.0.1:0");
    assert_eq!(base_url(&auth("https", 65535, "x")), "https://127.0.0.1:65535");
    assert_eq!(base_url(&auth("https", 7, "x")), "https://127.0.0.1:7");
}

#[test]
fn request_urls() {
    let a = auth("https", 2999, "t");
    assert_eq!(gameflow_phase_url(&a), "https://127.0.0.1:2999/lol-gameflow/v1/gameflow-phase");
    assert_eq!(
        ready_check_accept_url(&a),
        "https://127.0.0.1:2999/lol-matchmaking/v1/ready-check/accept"
    );
}

#[test]
fn trim_for_log_keeps_short_text() {
    assert_eq!(trim_for_log(""), "");
    assert_eq!(trim_for_log("hello"), "hello");
    let exact = "a".repeat(512);
    assert_eq!(trim_for_log(&exact), exact);
}

#[test]
fn trim_for_log_cuts_long_text() {
    let long = "b".repeat(600);
    let expected = format!("{}...(truncated)", "b".repeat(512));
    assert_eq!(trim_for_log(&long), expected);
    // 510 ASCII bytes, then a two-byte character ending exactly at byte 512
    let mixed = format!("{}é{}", "c".repeat(510), "d".repeat(40));
    assert_eq!(trim_for_log(&mixed), format!("{}é...(truncated)", "c".repeat(510)));
}

#[test]
fn path_key_normalises() {
    assert_eq!(path_key("C:\\Riot Games\\League of Legends\\"), "c:/riot games/league of legends");
    assert_eq!(path_key("D:/Games/LoL//"), "d:/games/lol");
    assert_eq!(path_key("///"), "");
    assert_eq!(path_key(""), "");
    assert_eq!(path_key("Ä\\B"), "Ä/b");
}

#[test]
fn client_dir_filter_matches_dir_and_below() {
    let f = ClientDirFilter::new("C:\\Riot Games\\League of Legends");
    assert!(f.matches_key("c:/riot games/league of legends"));
    assert!(f.matches_key("c:/riot games/league of legends/game"));
    assert!(!f.matches_key("c:/riot games/league of legends2"));
    assert!(!f.matches_key("c:/riot games"));
    assert!(!f.matches_key("C:/Riot Games/League of Legends"));
}

#[test]
fn from_args_accepts_lol_dir() {
    let o = LcuOverrides::from_args(args(&[])).ok().unwrap();
    assert_eq!(o.lol_dir(), None);
    let o = LcuOverrides::from_args(args(&["--lol-dir", "D:\\LoL"])).ok().unwrap();
    assert_eq!(o.lol_dir(), Some("D:\\LoL".to_string()));
    let o = LcuOverrides::from_args(args(&["--lol-dir", "a", "--lol-dir", "b"])).ok().unwrap();
    assert_eq!(o.lol_dir(), Some("b".to_string()));
    let o = LcuOverrides::from_args(args(&["--lol-dir", "--help"])).ok().unwrap();
    assert_eq!(o.lol_dir(), Some("--help".to_string()));
}

#[test]
fn from_args_errors() {
    assert!(matches!(
        LcuOverrides::from_args(args(&["--lol-dir"])),
        Err(ArgsError::MissingLolDirValue)
    ));
    assert!(matches!(
        LcuOverrides::from_args(args(&["--verbose"])),
        Err(ArgsError::UnknownArgument(a)) if a == "--verbose"
    ));
    assert!(matches!(LcuOverrides::from_args(args(&["--help"])), Err(ArgsError::HelpRequested)));
    assert!(matches!(LcuOverrides::from_args(args(&["-h"])), Err(ArgsError::HelpRequested)));
    assert!(matches!(LcuOverrides::from_args(args(&["/?"])), Err(ArgsError::HelpRequested)));
    assert!(matches!(
        LcuOverrides::from_args(args(&["--lol-dir", "x", "extra"])),
        Err(ArgsError::UnknownArgument(a)) if a == "extra"
    ));
    assert!(matches!(
        LcuOverrides::from_args(args(&["bad", "--help"])),
        Err(ArgsError::UnknownArgument(a)) if a == "bad"
    ));
}

#[test]
fn desired_filter_prefers_argument_over_environment() {
    let o = LcuOverrides::from_args(args(&["--lol-dir", "C:\\A"])).ok().unwrap();
    let f = desired_client_dir_filter(&o, Some("C:\\B".to_string())).unwrap();
    assert!(f.matches_key("c:/a"));
    assert!(!f.matches_key("c:/b"));
    let none = LcuOverrides::none();
    let f = desired_client_dir_filter(&none, Some("C:\\B\\".to_string())).unwrap();
    assert!(f.matches_key("c:/b"));
    assert!(desired_client_dir_filter(&none, None).is_none());
}

#[test]
fn league_client_names() {
    assert!(is_league_client_process("LeagueClientUx.exe"));
    assert!(is_league_client_process("leagueclientuxrender.EXE"));
    assert!(is_league_client_process("LEAGUECLIENT.EXE"));
    assert!(!is_league_client_process("League of Legends.exe"));
    assert!(!is_league_client_process("LeagueClientUx.exe "));
    assert!(!is_league_client_process(""));
}

#[test]
fn utf16_buffer_decoding() {
    let mut buf: Vec<u16> = "abc".encode_utf16().collect();
    buf.push(0);
    buf.extend("def".encode_utf16());
    assert_eq!(utf16_nul_terminated_to_string(&buf), "abc");
    let full: Vec<u16> = "LeagueClient.exe".encode_utf16().collect();
    assert_eq!(utf16_nul_terminated_to_string(&full), "LeagueClient.exe");
    assert_eq!(utf16_nul_terminated_to_string(&[0, 65]), "");
    assert_eq!(utf16_nul_terminated_to_string(&[0xD83D, 0xDE00, 0]), "😀");
    assert_eq!(utf16_nul_terminated_to_string(&[0xD800, 66, 0]), "\u{FFFD}B");
}

#[test]
fn status_success_range() {
    assert!(is_success_status(200));
    assert!(is_success_status(204));
    assert!(is_success_status(299));
    assert!(!is_success_status(199));
    assert!(!is_success_status(300));
    assert!(!is_success_status(404));
}

#[test]
fn probe_and_accept_outcomes() {
    assert!(probe_outcome(200).is_ok());
    assert_eq!(probe_outcome(401).err(), Some(LcuError::ProbeStatus(401)));
    assert!(accept_outcome(204, "").is_ok());
    assert_eq!(
        accept_outcome(500, "oops").err(),
        Some(LcuError::AcceptStatus(500, "oops".to_string()))
    );
}

#[test]
fn gameflow_phase_parsing() {
    assert_eq!(gameflow_phase_from_response(200, "\"ReadyCheck\"").ok(), Some("ReadyCheck".to_string()));
    assert_eq!(gameflow_phase_from_response(200, " \"InProgress\"\n").ok(), Some("InProgress".to_string()));
    assert_eq!(gameflow_phase_from_response(200, "\"a\\\"b\"").ok(), Some("a\"b".to_string()));
    assert_eq!(gameflow_phase_from_response(200, "ReadyCheck").err(), Some(LcuError::PhaseNotJson));
    assert_eq!(gameflow_phase_from_response(200, "42").err(), Some(LcuError::PhaseNotJson));
    assert_eq!(
        gameflow_phase_from_response(404, "not found").err(),
        Some(LcuError::PhaseStatus(404, "not found".to_string()))
    );
    let long = "x".repeat(700);
    assert_eq!(
        gameflow_phase_from_response(500, &long).err(),
        Some(LcuError::PhaseStatus(500, format!("{}...(truncated)", "x".repeat(512))))
    );
}

#[test]
fn utf16_name_stops_at_zero() {
    assert_eq!(utf16_nul_terminated_to_string(&[76, 111, 76, 0, 88]), "LoL");
    assert_eq!(utf16_nul_terminated_to_string(&[72, 105]), "Hi");
    assert_eq!(utf16_nul_terminated_to_string(&[0, 65]), "");
}

#[test]
fn utf16_name_pairs_and_lone_surrogates() {
    assert_eq!(utf16_nul_terminated_to_string(&[0xD834, 0xDD1E, 0x61, 0]), "\u{1D11E}a");
    assert_eq!(utf16_nul_terminated_to_string(&[0xD834, 0x61, 0xDD1E]), "\u{FFFD}a\u{FFFD}");
}

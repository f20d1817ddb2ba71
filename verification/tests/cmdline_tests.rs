use lol_plugin::cmdline::{find_cmd_arg_value, parse_partial_auth_from_command_line, PartialAuth};

fn s(v: &str) -> Option<String> {
    Some(v.to_string())
}

#[test]
fn finds_equals_and_space_forms() {
    let cmd = "\"C:\\Riot Games\\LeagueClientUx.exe\" --app-port=51234 --remoting-auth-token=abcXYZ --app-protocol https";
    assert_eq!(find_cmd_arg_value(cmd, "--app-port"), s("51234"));
    assert_eq!(find_cmd_arg_value(cmd, "--remoting-auth-token"), s("abcXYZ"));
    assert_eq!(find_cmd_arg_value(cmd, "--app-protocol"), s("https"));
    assert_eq!(find_cmd_arg_value(cmd, "--missing"), None);
}

#[test]
fn quoted_values() {
    assert_eq!(find_cmd_arg_value("x --tok=\"a b\" y", "--tok"), s("a b"));
    assert_eq!(find_cmd_arg_value("x --tok 'q\"z' y", "--tok"), s("q\"z"));
    assert_eq!(find_cmd_arg_value("x --tok=\"unterminated", "--tok"), s("unterminated"));
    assert_eq!(find_cmd_arg_value("\"--tok=1\"", "--tok"), s("1"));
}

#[test]
fn occurrence_must_start_an_argument() {
    assert_eq!(find_cmd_arg_value("x--app-port=1", "--app-port"), None);
    assert_eq!(find_cmd_arg_value("--app-port=1", "--app-port"), s("1"));
    assert_eq!(find_cmd_arg_value("\t--app-port\t\t9", "--app-port"), s("9"));
}

#[test]
fn last_non_empty_value_wins() {
    assert_eq!(find_cmd_arg_value("--p=1 --p=2", "--p"), s("2"));
    assert_eq!(find_cmd_arg_value("--p=1 --p=\"\"", "--p"), s("1"));
    assert_eq!(find_cmd_arg_value("--p=1 --p", "--p"), s("1"));
    assert_eq!(find_cmd_arg_value("--p= --p=7", "--p"), s("7"));
}

#[test]
fn values_are_not_rescanned() {
    // the second occurrence lies inside the quoted value of the first
    assert_eq!(find_cmd_arg_value("--p=\"x --p=2\"", "--p"), s("x --p=2"));
}

#[test]
fn partial_auth_from_full_command_line() {
    let p = parse_partial_auth_from_command_line(
        "LeagueClientUx.exe --app-protocol=HTTPS --app-port=\"2999\" --remoting-auth-token=secret",
    );
    assert_eq!(p, PartialAuth { protocol: s("https"), port: Some(2999), password: s("secret") });
}

#[test]
fn partial_auth_rejects_bad_parts() {
    let p = parse_partial_auth_from_command_line("--app-protocol=ftp --app-port=0 --remoting-auth-token=\"\"\"\"");
    assert_eq!(p, PartialAuth { protocol: None, port: None, password: None });
    let p = parse_partial_auth_from_command_line("--app-port=70000");
    assert_eq!(p.port, None);
    let p = parse_partial_auth_from_command_line("--app-port=+80");
    assert_eq!(p.port, Some(80));
    let p = parse_partial_auth_from_command_line("--app-port=-80");
    assert_eq!(p.port, None);
    let p = parse_partial_auth_from_command_line("--app-port=65535 --app-protocol=Http");
    assert_eq!(p.port, Some(65535));
    assert_eq!(p.protocol, s("http"));
}

#[test]
fn merge_keeps_first_values() {
    let mut a = PartialAuth { protocol: None, port: Some(1), password: None };
    a.merge(PartialAuth { protocol: s("http"), port: Some(2), password: s("t") });
    assert_eq!(a, PartialAuth { protocol: s("http"), port: Some(1), password: s("t") });
}

#[test]
fn into_auth_needs_port_and_token() {
    let a = PartialAuth { protocol: None, port: Some(5), password: s("t") }.into_auth().unwrap();
    assert_eq!(a.protocol, "https");
    assert_eq!(a.port, 5);
    assert_eq!(a.password, "t");
    assert!(PartialAuth { protocol: s("http"), port: None, password: s("t") }.into_auth().is_none());
    assert!(PartialAuth { protocol: s("http"), port: Some(1), password: None }.into_auth().is_none());
}

#[test]
fn app_port_roundtrip_example() {
    let port: u16 = 54321;
    let cmd = format!("x --app-port={}", port);
    assert_eq!(parse_partial_auth_from_command_line(&cmd).port, Some(port));
    let cmd = format!("x --app-port=\"{}\"", port);
    assert_eq!(parse_partial_auth_from_command_line(&cmd).port, Some(port));
}

#[test]
fn merge_reports_conflicts() {
    let mut a = PartialAuth { protocol: s("https"), port: Some(1), password: s("x") };
    let c = a.merge(PartialAuth { protocol: s("http"), port: Some(2), password: s("y") });
    assert_eq!(c.protocol, Some(("https".to_string(), "http".to_string())));
    assert_eq!(c.port, Some((1, 2)));
    assert!(c.password);
    assert_eq!(a, PartialAuth { protocol: s("https"), port: Some(1), password: s("x") });

    let mut b = PartialAuth { protocol: None, port: Some(7), password: s("t") };
    let c = b.merge(PartialAuth { protocol: s("http"), port: Some(7), password: None });
    assert_eq!(c.protocol, None);
    assert_eq!(c.port, None);
    assert!(!c.password);
    assert_eq!(b, PartialAuth { protocol: s("http"), port: Some(7), password: s("t") });
}

use bench_server::config::{parse_args, parse_unsigned, CliCommand, Config};

fn args(list: &[&str]) -> Vec<Vec<u8>> {
    list.iter().map(|a| a.as_bytes().to_vec()).collect()
}

fn serve(list: &[&str]) -> Config {
    match parse_args(&args(list)) {
        CliCommand::Serve(c) => c,
        _ => panic!("expected a configuration"),
    }
}

#[test]
fn unsigned_text_values() {
    assert_eq!(parse_unsigned(b"42", 65535), Some(42));
    assert_eq!(parse_unsigned(b"+42", 65535), Some(42));
    assert_eq!(parse_unsigned(b"007", 65535), Some(7));
    assert_eq!(parse_unsigned(b"65535", 65535), Some(65535));
    assert_eq!(parse_unsigned(b"18446744073709551615", u64::MAX), Some(u64::MAX));
}

#[test]
fn unsigned_text_rejections() {
    assert_eq!(parse_unsigned(b"", 65535), None);
    assert_eq!(parse_unsigned(b"+", 65535), None);
    assert_eq!(parse_unsigned(b"-1", 65535), None);
    assert_eq!(parse_unsigned(b"12a", 65535), None);
    assert_eq!(parse_unsigned(b" 1", 65535), None);
    assert_eq!(parse_unsigned(b"65536", 65535), None);
    assert_eq!(parse_unsigned(b"18446744073709551616", u64::MAX), None);
    assert_eq!(parse_unsigned(b"99999999999999999999x", u64::MAX), None);
}

#[test]
fn no_flags_gives_defaults() {
    let c = serve(&["server"]);
    assert_eq!(c.port_override, None);
    assert_eq!(c.static_dir, None);
    assert_eq!(c.route_count, 0);
    assert!(!c.h2 && !c.tls);
    assert_eq!(c.cert_file, None);
    assert_eq!(c.key_file, None);
}

#[test]
fn all_flags_read() {
    let c = serve(&[
        "server", "--port", "9000", "--static", "www", "--routes", "50", "--h2", "--tls", "--cert",
        "c.pem", "--key", "k.pem",
    ]);
    assert_eq!(c.port_override, Some(9000));
    assert_eq!(c.static_dir, Some(b"www".to_vec()));
    assert_eq!(c.route_count, 50);
    assert!(c.h2 && c.tls);
    assert_eq!(c.cert_file, Some(b"c.pem".to_vec()));
    assert_eq!(c.key_file, Some(b"k.pem".to_vec()));
}

#[test]
fn bad_route_count_falls_back() {
    let c = serve(&["server", "--routes", "many"]);
    assert_eq!(c.route_count, 1000);
}

#[test]
fn bad_port_stops_startup() {
    assert!(matches!(parse_args(&args(&["server", "--port", "99999"])), CliCommand::BadPort(ref v) if v == b"99999"));
    assert!(matches!(parse_args(&args(&["server", "--port", "abc", "--h2"])), CliCommand::BadPort(ref v) if v == b"abc"));
    assert!(matches!(parse_args(&args(&["server", "--port", "1", "--port", "x"])), CliCommand::BadPort(ref v) if v == b"x"));
}

#[test]
fn bad_port_after_help_is_help() {
    assert!(matches!(parse_args(&args(&["server", "--help", "--port", "x"])), CliCommand::Help));
    assert!(matches!(parse_args(&args(&["server", "--port", "x", "--help"])), CliCommand::BadPort(_)));
}

#[test]
fn later_port_overrides_earlier() {
    let c = serve(&["server", "--port", "1", "--port", "2"]);
    assert_eq!(c.port_override, Some(2));
}

#[test]
fn flag_without_value_is_skipped() {
    let c = serve(&["server", "--h2", "--port"]);
    assert!(c.h2);
    assert_eq!(c.port_override, None);
    let c = serve(&["server", "--bogus", "--static"]);
    assert_eq!(c.static_dir, None);
}

#[test]
fn program_name_is_not_a_flag() {
    let c = serve(&["--h2"]);
    assert!(!c.h2);
}

#[test]
fn help_flags() {
    assert!(matches!(parse_args(&args(&["server", "--help"])), CliCommand::Help));
    assert!(matches!(parse_args(&args(&["server", "--h2", "-h", "--tls"])), CliCommand::Help));
    assert!(matches!(parse_args(&args(&["server", "--static", "--help"])), CliCommand::Serve(_)));
}

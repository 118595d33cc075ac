use bench_server::config::{parse_args, CliCommand};
use bench_server::endpoints::{
    api_pattern, delay_message, delay_ms, env_switch, json_items, port_from_env, route_path, route_text,
    threads_from_env, user_post, PortError, TlsSetupError,
};

#[test]
fn delay_defaults_and_message() {
    assert_eq!(delay_ms(None), 10);
    assert_eq!(delay_ms(Some(50)), 50);
    assert_eq!(delay_message(50), b"Delayed 50 ms".to_vec());
    assert_eq!(delay_message(0), b"Delayed 0 ms".to_vec());
}

#[test]
fn synthetic_routes() {
    assert_eq!(route_path(0), b"/r0".to_vec());
    assert_eq!(route_path(123), b"/r123".to_vec());
    assert_eq!(route_text(7), b"route 7".to_vec());
}

#[test]
fn pattern_routes() {
    assert_eq!(user_post(b"12", b"abc"), b"user 12 post abc".to_vec());
    assert_eq!(api_pattern(b"r", b"i", b"a"), b"resource r item i action a".to_vec());
}

fn item_value(id: usize, name: &[u8], value: usize) -> serde_json::Value {
    let mut m = serde_json::Map::new();
    m.insert("id".to_string(), serde_json::Value::from(id));
    m.insert("name".to_string(), serde_json::Value::from(String::from_utf8(name.to_vec()).unwrap()));
    m.insert("value".to_string(), serde_json::Value::from(value));
    serde_json::Value::Object(m)
}

#[test]
fn json_three_items() {
    let items = json_items(Some(3));
    let list: Vec<serde_json::Value> = items.iter().map(|i| item_value(i.id, &i.name, i.value)).collect();
    let mut top = serde_json::Map::new();
    top.insert("items".to_string(), serde_json::Value::Array(list));
    let got = serde_json::Value::Object(top);
    let want: serde_json::Value = serde_json::from_str(
        r#"{"items":[{"id":0,"name":"item-0","value":0},{"id":1,"name":"item-1","value":100},{"id":2,"name":"item-2","value":200}]}"#,
    )
    .unwrap();
    assert_eq!(got, want);
}

#[test]
fn json_default_and_empty() {
    let items = json_items(None);
    assert_eq!(items.len(), 10);
    assert_eq!(items[9].name, b"item-9".to_vec());
    assert_eq!(items[9].value, 900);
    assert!(json_items(Some(0)).is_empty());
}

#[test]
fn environment_switches() {
    assert!(env_switch(Some(b"1")));
    assert!(!env_switch(Some(b"true")));
    assert!(!env_switch(Some(b"")));
    assert!(!env_switch(Some(b"11")));
    assert!(!env_switch(None));
}

#[test]
fn port_from_environment() {
    assert_eq!(port_from_env(None), Ok(8086));
    assert_eq!(port_from_env(Some(b"9090")), Ok(9090));
    assert_eq!(port_from_env(Some(b"+80")), Ok(80));
}

#[test]
fn unparsable_environment_port_is_an_error() {
    assert_eq!(port_from_env(Some(b"70000")), Err(PortError::Unparsable));
    assert_eq!(port_from_env(Some(b"abc")), Err(PortError::Unparsable));
    assert_eq!(port_from_env(Some(b"")), Err(PortError::Unparsable));
}

#[test]
fn threads_from_environment() {
    assert_eq!(threads_from_env(Some(b"3"), Some(16)), 3);
    assert_eq!(threads_from_env(Some(b"x"), Some(16)), 16);
    assert_eq!(threads_from_env(None, None), 4);
}

fn config(list: &[&str]) -> bench_server::config::Config {
    let a: Vec<Vec<u8>> = list.iter().map(|s| s.as_bytes().to_vec()).collect();
    match parse_args(&a) {
        CliCommand::Serve(c) => c,
        _ => panic!("expected a configuration"),
    }
}

#[test]
fn listen_port_and_protocol() {
    let c = config(&["s", "--port", "7000"]);
    assert_eq!(c.listen_port(8086), 7000);
    assert_eq!(c.protocol(), "http/1.1");
    let c = config(&["s", "--h2"]);
    assert_eq!(c.listen_port(8086), 8086);
    assert_eq!(c.protocol(), "h2c");
    let c = config(&["s", "--h2", "--tls"]);
    assert_eq!(c.protocol(), "h2-tls");
}

#[test]
fn tls_needs_both_files() {
    assert_eq!(config(&["s", "--tls"]).tls_files(), Err(TlsSetupError::MissingCert));
    assert_eq!(config(&["s", "--tls", "--cert", "c"]).tls_files(), Err(TlsSetupError::MissingKey));
    assert_eq!(
        config(&["s", "--cert", "c", "--key", "k"]).tls_files(),
        Ok((b"c".to_vec(), b"k".to_vec()))
    );
}

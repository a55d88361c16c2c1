use waystone::config::{Config, ConfigError, ServerConfig};

const VALID_YAML: &str = "
upstream_servers:
  - host1
  - host2
  - host3
";

#[test]
fn from_valid_yaml() {
    Config::new(VALID_YAML, 1).unwrap();
}

#[test]
fn from_invalid_yaml() {
    match Config::new("invalid yaml", 1) {
        Err(ConfigError::ParseError(_)) => {}
        other => panic!("Unexpected error {:?}", other),
    }
}

#[test]
fn valid_yaml_fields_and_defaults() {
    let config = Config::new(VALID_YAML, 7).unwrap();
    assert_eq!(config.upstream_servers, vec!["host1", "host2", "host3"]);
    assert_eq!(config.server.ip, "0.0.0.0");
    assert_eq!(config.server.port, 0);
    assert_eq!(config.threads_number, 7);
}

#[test]
fn explicit_fields_override_defaults() {
    let doc = "
server:
  ip: 127.0.0.1
  port: 8080
upstream_servers:
  - a:1
threads_number: 3333
";
    let config = Config::new(doc, 1).unwrap();
    assert_eq!(config.server.ip, "127.0.0.1");
    assert_eq!(config.server.port, 8080);
    assert_eq!(config.threads_number, 3333);
    assert_eq!(config.upstream_servers, vec!["a:1"]);
}

#[test]
fn parsing_twice_is_idempotent() {
    let first = Config::new(VALID_YAML, 4).unwrap();
    let second = Config::new(VALID_YAML, 4).unwrap();
    assert_eq!(first, second);
}

#[test]
fn empty_upstreams_always_same_error_kind() {
    let doc = "upstream_servers: []\n";
    let first = Config::new(doc, 1);
    let second = Config::new(doc, 1);
    match (&first, &second) {
        (Err(ConfigError::ValueError(a)), Err(ConfigError::ValueError(b))) => {
            assert_eq!(a, b);
            assert_eq!(a.len(), 1);
            assert_eq!(
                a[0],
                "'upstream_servers' is empty. Please, provide at least one upstream server."
            );
        }
        other => panic!("Unexpected outcomes {:?}", other),
    }
}

#[test]
fn missing_upstreams_is_parse_error() {
    match Config::new("threads_number: 2\n", 1) {
        Err(ConfigError::ParseError(_)) => {}
        other => panic!("Unexpected error {:?}", other),
    }
}

#[test]
fn wrong_typed_port_is_parse_error() {
    let doc = "
server:
  port: not_a_number
upstream_servers:
  - a:1
";
    match Config::new(doc, 1) {
        Err(ConfigError::ParseError(_)) => {}
        other => panic!("Unexpected error {:?}", other),
    }
}

#[test]
fn ip_port_renders_address() {
    let server = ServerConfig {
        ip: String::from("10.1.2.3"),
        port: 65000,
    };
    assert_eq!(server.ip_port(), "10.1.2.3:65000");
}

#[test]
fn default_server_config() {
    let server = ServerConfig::default();
    assert_eq!(server.ip, "0.0.0.0");
    assert_eq!(server.port, 0);
    assert_eq!(server.ip_port(), "0.0.0.0:0");
}

use payment_backend::{parse_port, parse_tls_flag, Config, EnvVars};

fn no_vars() -> EnvVars {
    EnvVars { server_port: None, tls_enable: None, tls_cert_path: None, tls_key_path: None }
}

#[test]
fn defaults() {
    let c = Config::default();
    assert_eq!(c.backend_type, "mock");
    assert_eq!(c.server_port, 50051);
    assert!(!c.tls_enable);
    assert_eq!(c.tls_cert_path, "certs/server.crt");
    assert_eq!(c.tls_key_path, "certs/server.key");
    assert!(c.keep_alive_interval.is_none());
    assert!(c.keep_alive_timeout.is_none());
    assert!(c.max_connection_age.is_none());
}

#[test]
fn port_parsing() {
    assert_eq!(parse_port("8080"), Some(8080));
    assert_eq!(parse_port("+443"), Some(443));
    assert_eq!(parse_port("0"), Some(0));
    assert_eq!(parse_port("65535"), Some(65535));
    assert_eq!(parse_port("65536"), None);
    assert_eq!(parse_port("99999999999"), None);
    assert_eq!(parse_port(""), None);
    assert_eq!(parse_port("+"), None);
    assert_eq!(parse_port("-1"), None);
    assert_eq!(parse_port("80a"), None);
    assert_eq!(parse_port(" 80"), None);
}

#[test]
fn port_parsing_agrees_with_std() {
    for s in ["1", "007", "+0", "65535", "65536", "", "+", "x", "6553a", "123456"] {
        assert_eq!(parse_port(s), s.parse::<u16>().ok(), "{}", s);
    }
}

#[test]
fn tls_flag_values() {
    for v in ["1", "true", "TRUE", "yes", "YES"] {
        assert!(parse_tls_flag(&v.to_string()), "{}", v);
    }
    for v in ["0", "True", "false", "no", "", "on"] {
        assert!(!parse_tls_flag(&v.to_string()), "{}", v);
    }
}

#[test]
fn environment_overrides() {
    let vars = EnvVars {
        server_port: Some("9000".to_string()),
        tls_enable: Some("yes".to_string()),
        tls_cert_path: Some("/tls/cert.pem".to_string()),
        tls_key_path: Some("/tls/key.pem".to_string()),
    };
    let c = Config::from_env(Config::default(), &vars);
    assert_eq!(c.server_port, 9000);
    assert!(c.tls_enable);
    assert_eq!(c.tls_cert_path, "/tls/cert.pem");
    assert_eq!(c.tls_key_path, "/tls/key.pem");
    assert_eq!(c.backend_type, "mock");
}

#[test]
fn bad_port_keeps_base() {
    let mut base = Config::default();
    base.server_port = 7000;
    base.tls_enable = true;
    let vars = EnvVars { server_port: Some("port".to_string()), tls_enable: Some("off".to_string()), ..no_vars() };
    let c = Config::from_env(base, &vars);
    assert_eq!(c.server_port, 7000);
    assert!(!c.tls_enable);
}

#[test]
fn no_variables_change_nothing() {
    let c = Config::from_env(Config::default(), &no_vars());
    assert_eq!(c.server_port, 50051);
    assert!(!c.tls_enable);
    assert_eq!(c.tls_cert_path, "certs/server.crt");
}

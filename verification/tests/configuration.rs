use pms_slave::config::{Config, Host, Redis};

#[test]
fn a_complete_configuration_validates() {
    let cfg = Config {
        host: Host { master: "127.0.0.1:4000".to_string(), master_pass: "pw".to_string() },
        redis: Redis { enabled: true, redis: Some("redis://localhost".to_string()) },
    };
    cfg.validate();
    cfg.host.validate();
    cfg.redis.validate();
}

#[test]
fn a_disabled_cache_needs_no_address() {
    let cfg = Config {
        host: Host { master: "master:4000".to_string(), master_pass: String::new() },
        redis: Redis { enabled: false, redis: None },
    };
    cfg.validate();
}

use wirecache::config::config_file::{load_config_or_default, AppConfig};

fn all_set() -> AppConfig {
    AppConfig {
        host: Some(String::from("127.0.0.1")),
        port: Some(7000),
        max_capacity: Some(42),
        metrics_interval_secs: Some(30),
        single_thread_mode: Some(true),
        debug: Some(true),
    }
}

#[test]
fn test_max_capacity_default() {
    let cfg = load_config_or_default(Err(String::from(
        "Arquivo de configuração 'nonexistent.toml' não encontrado.",
    )));
    assert_eq!(cfg.max_capacity(), 1_000_000);
}

#[test]
fn defaults_when_loading_failed() {
    let cfg = load_config_or_default(Err(String::from("Falha ao parsear TOML: x")));
    assert_eq!(cfg.host, None);
    assert_eq!(cfg.port, None);
    assert_eq!(cfg.single_thread_mode, None);
    assert_eq!(cfg.debug, None);
    assert_eq!(cfg.bind_host(), "0.0.0.0");
    assert_eq!(cfg.bind_port(), 6380);
    assert_eq!(cfg.metrics_interval(), 5);
    assert!(!cfg.debug_enabled());
}

#[test]
fn loaded_config_is_kept() {
    let cfg = load_config_or_default(Ok(all_set()));
    assert_eq!(cfg, all_set());
    assert_eq!(cfg.bind_host(), "127.0.0.1");
    assert_eq!(cfg.bind_port(), 7000);
    assert_eq!(cfg.max_capacity(), 42);
    assert_eq!(cfg.metrics_interval(), 30);
    assert!(cfg.debug_enabled());
}

#[test]
fn partly_set_config_falls_back_per_field() {
    let cfg = AppConfig {
        host: None,
        port: Some(6380),
        max_capacity: None,
        metrics_interval_secs: Some(1),
        single_thread_mode: Some(true),
        debug: Some(false),
    };
    assert_eq!(cfg.bind_host(), "0.0.0.0");
    assert_eq!(cfg.bind_port(), 6380);
    assert_eq!(cfg.max_capacity(), 1_000_000);
    assert_eq!(cfg.metrics_interval(), 1);
    assert!(!cfg.debug_enabled());
}

use clickless::config::{Config, ConfigError};
use clickless::startup::resolve_startup;

#[test]
fn startup_without_file_boots_defaults_unpaused() {
    let plan = resolve_startup(None);
    assert_eq!(plan.config, Config::default());
    assert!(!plan.start_paused);
    assert!(plan.notice.is_none());
}

#[test]
fn startup_with_a_loaded_file_boots_it_unpaused() {
    let mut config = Config::default();
    config.settings.hold_ms = 350;
    let plan = resolve_startup(Some(("c.toml".to_string(), Ok(config.clone()))));
    assert_eq!(plan.config, config);
    assert!(!plan.start_paused);
    assert!(plan.notice.is_none());
}

#[test]
fn startup_with_a_refused_file_boots_paused_on_defaults_and_names_the_fault() {
    let plan = resolve_startup(Some((
        "/tmp/bad.toml".to_string(),
        Err(ConfigError::InvalidHoldMs(0)),
    )));
    assert_eq!(plan.config, Config::default());
    assert!(plan.start_paused);
    assert_eq!(
        plan.notice.unwrap(),
        "Config /tmp/bad.toml ignored: Invalid hold: hold_ms (0) must be greater than 0. \
         Running paused on defaults; the file was left untouched."
    );
}

use stats_ingest::config::{Config, ConfigError, Environment};

fn unset() -> Environment {
    Environment {
        app_url: None,
        service_port: None,
        database_url: None,
        cors_domains: None,
        processing_batch_size: None,
        is_development: None,
    }
}

#[test]
fn unset_environment_gives_the_defaults() {
    let config = Config::new(unset()).expect("defaults are valid");
    assert_eq!(config.app_url, "127.0.0.1:8080");
    assert_eq!(config.service_port, "5775");
    assert_eq!(config.database_url, "/data/stats.sqlite");
    assert_eq!(config.cors_domains, Vec::<String>::new());
    assert_eq!(config.processing_batch_size, 4);
    assert!(!config.is_development);
}

#[test]
fn set_values_override_the_defaults() {
    let env = Environment {
        app_url: Some("https://stats.example".to_string()),
        service_port: Some("8000".to_string()),
        database_url: Some("db.sqlite".to_string()),
        cors_domains: Some("https://a.example, https://b.example ,".to_string()),
        processing_batch_size: Some("250".to_string()),
        is_development: Some("true".to_string()),
    };
    let config = Config::new(env).expect("valid values");
    assert_eq!(config.app_url, "https://stats.example");
    assert_eq!(config.service_port, "8000");
    assert_eq!(config.database_url, "db.sqlite");
    assert_eq!(config.cors_domains, vec!["https://a.example", "https://b.example"]);
    assert_eq!(config.processing_batch_size, 250);
    assert!(config.is_development);
}

#[test]
fn unreadable_batch_size_is_an_error() {
    let mut env = unset();
    env.processing_batch_size = Some("many".to_string());
    env.is_development = Some("maybe".to_string());
    let error = Config::new(env).expect_err("batch size does not parse");
    assert_eq!(error, ConfigError::ProcessingBatchSize);
    assert_eq!(error.key(), "PROCESSING_BATCH_SIZE");
    assert_eq!(error.message(), "Failed to parse PROCESSING_BATCH_SIZE");
}

#[test]
fn unreadable_development_flag_is_an_error() {
    let mut env = unset();
    env.is_development = Some("yes".to_string());
    let error = Config::new(env).expect_err("flag does not parse");
    assert_eq!(error, ConfigError::IsDevelopment);
    assert_eq!(error.key(), "IS_DEVELOPMENT");
    assert_eq!(error.message(), "Failed to parse IS_DEVELOPMENT");
}

#[test]
fn single_values_fall_back_to_their_defaults() {
    assert_eq!(Config::get_env(None, "fallback"), "fallback");
    assert_eq!(Config::get_env(Some("set".to_string()), "fallback"), "set");
    assert_eq!(Config::get_env(Some(String::new()), "fallback"), "");
    assert_eq!(Config::get_env_list(None, "a,b"), vec!["a", "b"]);
    assert_eq!(Config::get_env_usize(None, 7), Some(7));
    assert_eq!(Config::get_env_usize(Some("9".to_string()), 7), Some(9));
    assert_eq!(Config::get_env_usize(Some("".to_string()), 7), None);
    assert_eq!(Config::get_env_bool(None, true), Some(true));
    assert_eq!(Config::get_env_bool(Some("false".to_string()), true), Some(false));
    assert_eq!(Config::get_env_bool(Some("no".to_string()), true), None);
}

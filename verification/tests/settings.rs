use trader_bot::settings::{ConfigError, Settings};

#[test]
fn test_settings_load() {
    let settings = Settings::new();
    assert!(
        settings.is_ok(),
        "Settings failed to load: {:?}",
        settings.err()
    );
    let settings = settings.unwrap();

    // Check built-in default values
    assert_eq!(settings.depot_url, "http://[::1]:50051");
    assert_eq!(settings.api_base_url, "https://paper-api.alpaca.markets");
    assert_eq!(settings.api_key_id, "FAKE_API_KEY");
    assert_eq!(settings.api_secret_key, "FAKE_SECRET_KEY");
}

#[test]
fn test_default_settings_validate() {
    let settings = Settings::new().unwrap();
    assert!(settings.validate().is_ok());
}

#[test]
fn test_validate_missing_setting() {
    let mut settings = Settings::new().unwrap();
    settings.depot_url = String::new();
    assert_eq!(settings.validate(), Err(ConfigError::MissingSetting));
}

#[test]
fn test_validate_invalid_limits() {
    let mut settings = Settings::new().unwrap();
    settings.max_trade_percent = 101;
    assert_eq!(settings.validate(), Err(ConfigError::InvalidLimits));

    let mut settings = Settings::new().unwrap();
    settings.top_n_configs = 0;
    assert_eq!(settings.validate(), Err(ConfigError::InvalidLimits));
}

use cascolor::config::Config;
use cascolor::config::ThemeMode;
use cascolor::update::UpdateError;
use cascolor::update::check_for_updates;
use cascolor::update::perform_update;
use cascolor::version::get_commit;
use cascolor::version::get_version;

#[test]
fn test_default_config() {
    let config = Config::default();
    assert_eq!(config.general.theme, ThemeMode::Dark);
    assert_eq!(config.general.history_size, 20);
    assert_eq!(config.updates.channel, "stable");
    assert!(config.updates.check_on_startup);
    assert!(config.updates.check_in_background);
    assert!(config.updates.prompt_before_update);
    assert!(config.ui.show_system_tray);
    assert!(config.ui.remember_window_position);
    assert_eq!(config.ui.default_color_format, "hex");
    assert!(config.color_history.is_empty());
}

#[test]
fn test_theme_switching() {
    let mut config = Config::default();
    assert_eq!(config.general.theme, ThemeMode::Dark);

    // Simulate theme toggle
    config.general.theme = ThemeMode::Light;
    assert_eq!(config.general.theme, ThemeMode::Light);

    config.general.theme = ThemeMode::Dark;
    assert_eq!(config.general.theme, ThemeMode::Dark);
}

#[test]
fn test_update_channel_switching() {
    let mut config = Config::default();
    assert_eq!(config.updates.channel, "stable");

    config.updates.channel = "beta".to_string();
    assert_eq!(config.updates.channel, "beta");

    config.updates.channel = "daily".to_string();
    assert_eq!(config.updates.channel, "daily");
}

#[test]
fn test_config_and_history() {
    let mut config = Config::default();

    // Simulate adding colors to history
    config.color_history.push("#FF5733".to_string());
    config.color_history.push("#33FF57".to_string());

    assert_eq!(config.color_history.len(), 2);

    // Verify history doesn't exceed limit
    for i in 0..25 {
        config.color_history.push(format!("#00000{:01X}", i % 16));
    }

    config.color_history.truncate(config.general.history_size);
    assert_eq!(config.color_history.len(), 20);
}

#[test]
fn test_config_path_shape() {
    let path = Config::config_path_string();
    assert!(path == "Unknown" || path.ends_with("/casapps/cascolor/config.toml"));
}

#[test]
fn test_update_channels_accepted() {
    assert_eq!(check_for_updates("stable").unwrap(), false);
    assert_eq!(check_for_updates("beta").unwrap(), false);
    assert_eq!(check_for_updates("daily").unwrap(), false);
    assert!(perform_update("stable").is_ok());
}

#[test]
fn test_update_invalid_channel() {
    match check_for_updates("nightly") {
        Err(UpdateError::InvalidChannel(ch)) => {
            assert_eq!(ch, "nightly");
        },
        _ => panic!("an unrecognized channel must be rejected"),
    }
    match perform_update("weekly") {
        Err(e) => assert_eq!(e.message(), "Invalid update channel: weekly"),
        Ok(_) => panic!("an unrecognized channel must be rejected"),
    }
}

#[test]
fn test_version_strings() {
    assert_eq!(get_version(), "0.1.0");
    assert_eq!(get_commit(), "unknown");
}

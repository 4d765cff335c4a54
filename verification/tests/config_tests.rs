use audio_pipeline::config::Config;
use audio_pipeline::config::ConfigManager;
use audio_pipeline::config::ConfigSetting;
use audio_pipeline::config::ConfigValidationError;

#[test]
fn defaults_match_the_documented_values() {
    let c = Config::default_config();
    assert_eq!(c.media_folder, "D:/download/");
    assert_eq!(c.output_folder, "D:/download/dest/");
    assert_eq!(c.max_retries, 3);
    assert_eq!(c.max_workers, 4);
    assert!(!c.use_jianying_first);
    assert!(!c.use_kuaishou);
    assert!(c.use_bcut);
    assert!(c.format_text);
    assert!(c.include_timestamps);
    assert!(c.show_progress);
    assert!(c.process_video);
    assert!(!c.extract_audio_only);
    assert!(!c.watch_mode);
    assert_eq!(c.max_part_time, 30);
    assert_eq!(c.retry_delay_ms, 1500);
}

#[test]
fn later_settings_override_earlier_ones() {
    let manager = ConfigManager::new(
        Config::default_config(),
        vec![
            ConfigSetting::MaxRetries(5),
            ConfigSetting::MediaFolder(String::from("/media")),
            ConfigSetting::MaxRetries(7),
        ],
    );
    assert_eq!(manager.config.max_retries, 7);
    assert_eq!(manager.config.media_folder, "/media");
    // untouched settings keep their defaults
    assert_eq!(manager.config.max_workers, 4);
}

#[test]
fn update_applies_in_order() {
    let mut manager = ConfigManager::new(Config::default_config(), Vec::new());
    manager.update(vec![ConfigSetting::WatchMode(true), ConfigSetting::MaxPartTime(10)]);
    assert!(manager.config.watch_mode);
    assert_eq!(manager.config.max_part_time, 10);
}

#[test]
fn validation_requires_both_folders() {
    let mut manager = ConfigManager::new(Config::default_config(), Vec::new());
    assert!(manager.validate_config().is_ok());

    manager.update(vec![ConfigSetting::MediaFolder(String::new())]);
    match manager.validate_config() {
        Err(ConfigValidationError::MissingRequiredField(f)) => assert_eq!(f, "media_folder"),
        other => panic!("expected a missing media_folder, got {:?}", other.is_ok()),
    }

    manager.update(vec![
        ConfigSetting::MediaFolder(String::from("/media")),
        ConfigSetting::OutputFolder(String::new()),
    ]);
    match manager.validate_config() {
        Err(ConfigValidationError::MissingRequiredField(f)) => assert_eq!(f, "output_folder"),
        other => panic!("expected a missing output_folder, got {:?}", other.is_ok()),
    }
}

#[test]
fn validation_requires_an_enabled_backend() {
    let mut manager = ConfigManager::new(
        Config::default_config(),
        vec![
            ConfigSetting::MediaFolder(String::from("/media")),
            ConfigSetting::OutputFolder(String::from("/out")),
            ConfigSetting::UseBcut(false),
        ],
    );
    match manager.validate_config() {
        Err(ConfigValidationError::GeneralError(m)) => {
            assert_eq!(m, "no speech recognition backend is enabled")
        }
        other => panic!("expected a rejected configuration, got {:?}", other.is_ok()),
    }
    manager.update(vec![ConfigSetting::UseKuaishou(true)]);
    assert!(manager.validate_config().is_ok());
}

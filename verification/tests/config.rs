use wicli::config::{Config, ConfigError, ConfigMap};

fn fresh_config() -> Config {
    Config {
        config_map: ConfigMap { sources: Some(Vec::new()) },
        config_path: "home/wicli.json".to_string(),
    }
}

#[test]
fn a_default_map_holds_an_empty_source_list() {
    let map = ConfigMap::default();
    assert_eq!(map.sources, Some(Vec::new()));
}

#[test]
fn it_adds_a_new_source_to_the_configuration() {
    let mut config = fresh_config();

    config.add_source("some/dir".to_string(), true).unwrap();

    assert_eq!(
        config.config_map.sources.as_ref().unwrap(),
        &vec!["some/dir".to_string()]
    );
}

#[test]
fn it_errors_when_the_directory_is_invalid() {
    let mut config = fresh_config();

    let result = config.add_source("invalid dir".to_string(), false);

    assert_eq!(result, Err(ConfigError::NotADirectory));
    assert_eq!(config.config_map.sources.as_ref().unwrap(), &Vec::<String>::new());
}

#[test]
fn it_errors_when_the_source_already_exists() {
    let mut config = fresh_config();

    config.add_source("fake_source".to_string(), true).unwrap();
    let result = config.add_source("fake_source".to_string(), true);

    assert_eq!(result, Err(ConfigError::AlreadyExists));
    assert_eq!(
        config.config_map.sources.as_ref().unwrap(),
        &vec!["fake_source".to_string()]
    );
}

#[test]
fn it_removes_a_source_from_the_list() {
    let mut config = fresh_config();
    config.add_source("fake_source".to_string(), true).unwrap();
    config.add_source("fake_source_2".to_string(), true).unwrap();

    config.delete_source("fake_source").unwrap();

    assert_eq!(
        config.config_map.sources.as_ref().unwrap(),
        &vec!["fake_source_2".to_string()]
    );
}

#[test]
fn removing_an_unknown_source_changes_nothing() {
    let mut config = fresh_config();
    config.add_source("kept".to_string(), true).unwrap();

    config.delete_source("absent").unwrap();

    assert_eq!(config.config_map.sources.as_ref().unwrap(), &vec!["kept".to_string()]);
}

#[test]
fn removal_takes_only_the_first_occurrence() {
    let mut config = Config {
        config_map: ConfigMap {
            sources: Some(vec![
                "twice".to_string(),
                "other".to_string(),
                "twice".to_string(),
            ]),
        },
        config_path: "home/wicli.json".to_string(),
    };

    config.delete_source("twice").unwrap();

    assert_eq!(
        config.config_map.sources.as_ref().unwrap(),
        &vec!["other".to_string(), "twice".to_string()]
    );
}

#[test]
fn validation_reports_each_rejection() {
    let mut config = fresh_config();
    config.add_source("present".to_string(), true).unwrap();

    assert_eq!(config.validate_source("anything", false), Err(ConfigError::NotADirectory));
    assert_eq!(config.validate_source("present", true), Err(ConfigError::AlreadyExists));
    assert_eq!(config.validate_source("new", true), Ok(()));
}

#[test]
fn rejections_carry_the_reported_messages() {
    assert_eq!(
        ConfigError::NotADirectory.message(),
        "Source is not a valid directory or does not exist"
    );
    assert_eq!(ConfigError::AlreadyExists.message(), "Source already exists");
}

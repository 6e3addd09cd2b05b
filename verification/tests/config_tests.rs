use blazinit::config::{
    config_file_path, get_default_profile, set_default_profile, Config,
};

#[test]
fn test_get_default_profile_initial() {
    assert_eq!(get_default_profile(&None), "default");
}

#[test]
fn test_set_default_profile_success() {
    let profile_name = "my_new_default";
    let mut config = Config::default();

    let result = set_default_profile(&mut config, profile_name, true);
    assert!(result.is_ok());
    assert_eq!(get_default_profile(&Some(config)), profile_name);
}

#[test]
fn test_set_default_profile_non_existent() {
    let profile_name = "non_existent";
    let mut config = Config::default();
    let result = set_default_profile(&mut config, profile_name, false);
    assert!(result.is_err());
    assert_eq!(
        result.err().unwrap().message(),
        format!("Profile '{}' does not exist.", profile_name)
    );
    assert_eq!(get_default_profile(&Some(config)), "default"); // Should remain default
}

#[test]
fn test_get_default_profile_after_set() {
    let profile_name = "another_default";
    let mut config = Config::default();
    set_default_profile(&mut config, profile_name, true).unwrap();

    assert_eq!(get_default_profile(&Some(config)), profile_name);
}

#[test]
fn test_config_file_path_shape() {
    assert_eq!(config_file_path("/home/u/.config/blazinit"), "/home/u/.config/blazinit/config.toml");
}

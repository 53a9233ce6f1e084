use std::path::PathBuf;
use totem::paths::default_config_file;

#[test]
fn default_file_sits_in_app_directory() {
    let base = PathBuf::from("/home/user/.config");
    let expected = PathBuf::from("/home/user/.config").join("totem").join("totem.json");
    assert_eq!(default_config_file(&base), expected);
    assert!(default_config_file(&base).ends_with("totem/totem.json"));
}

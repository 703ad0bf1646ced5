use usagi::settings::settings_path;

#[test]
fn settings_file_sits_in_the_save_dir() {
    assert_eq!(settings_path("/home/u/.local/share/com.x.y"), "/home/u/.local/share/com.x.y/settings.json");
}

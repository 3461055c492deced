use branch_diff_viewer::settings::UiSettings;

#[test]
fn get_ui_settings_defaults_when_file_missing() {
    let settings = UiSettings::default();
    assert!(settings.hide_whitespace);
}

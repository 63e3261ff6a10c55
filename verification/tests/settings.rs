use twoblade_client::settings::AppSettings;

#[test]
fn default_settings_use_smart_anti_spam() {
    let s = AppSettings::default();
    assert_eq!(s.anti_spam_mode.as_str(), "smart");
}

use clickless::settings_model::{settings, settings_for, SettingsPage};


#[test]
fn every_descriptor_has_user_help_and_example() {
    assert!(!settings().is_empty());
    assert!(
        settings()
            .iter()
            .all(|setting| !setting.description.is_empty() && !setting.example.is_empty())
    );
}

#[test]
fn every_page_has_a_descriptor() {
    for page in [
        SettingsPage::General,
        SettingsPage::Movement,
        SettingsPage::Grid,
        SettingsPage::Shortcuts,
        SettingsPage::Appearance,
    ] {
        assert!(settings_for(page).first().is_some(), "page has no settings");
    }
}

#[test]
fn the_pages_split_the_settings_between_them() {
    let pages = [
        SettingsPage::General,
        SettingsPage::Movement,
        SettingsPage::Grid,
        SettingsPage::Shortcuts,
        SettingsPage::Appearance,
        SettingsPage::About,
    ];
    let total: usize = pages.iter().map(|p| settings_for(*p).len()).sum();
    assert_eq!(total, settings().len());
    let general: Vec<&str> = settings_for(SettingsPage::General).iter().map(|d| d.key).collect();
    assert_eq!(general, vec!["enabled", "leader", "hold_ms"]);
}

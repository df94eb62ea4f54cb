use browser_core::engine::ProfileProxyConfig;
use browser_core::profile::{BrowserProfileManager, ProfileError, ProfileSettings};
use std::path::PathBuf;

fn manager() -> BrowserProfileManager {
    BrowserProfileManager::new(PathBuf::from("/tmp/profiles"))
}

#[test]
fn created_profile_is_stored_with_defaults() {
    let mut m = manager();
    let p = m.create_profile_with("alpha".to_string(), "Work", 100, true, PathBuf::from("/tmp/profiles/alpha"));
    assert_eq!(p.id, "alpha");
    assert_eq!(p.name, "Work");
    assert_eq!((p.created_at, p.last_used), (100, 100));
    assert!(p.is_default);
    assert!(!p.settings.proxy_enabled);
    assert_eq!(m.list_profiles().len(), 1);
    assert_eq!(m.get_profile("alpha").unwrap().name, "Work");
    assert!(m.get_profile("beta").is_none());
    assert!(m.get_active_profile().is_none());
}

#[test]
fn create_profile_uses_fresh_uuid_and_base_dir() {
    let mut m = manager();
    let a = m.create_profile("A", false);
    let b = m.create_profile("B", false);
    assert_eq!(a.id.len(), 36);
    assert_eq!(a.id.matches('-').count(), 4);
    assert_ne!(a.id, b.id);
    assert_eq!(a.data_dir, PathBuf::from("/tmp/profiles").join(&a.id));
    assert!(a.created_at > 1_600_000_000);
    assert_eq!(m.list_profiles().len(), 2);
}

#[test]
fn switching_marks_active_and_last_used() {
    let mut m = manager();
    m.create_profile_with("alpha".to_string(), "A", 100, false, PathBuf::from("/a"));
    m.create_profile_with("beta".to_string(), "B", 100, false, PathBuf::from("/b"));
    assert_eq!(m.switch_profile_at("beta", 500), Ok(()));
    let active = m.get_active_profile().unwrap();
    assert_eq!(active.id, "beta");
    assert_eq!(active.last_used, 500);
    assert_eq!(m.get_profile("alpha").unwrap().last_used, 100);
    assert_eq!(m.switch_profile_at("nope", 600), Err(ProfileError::NotFound));
    assert_eq!(m.get_active_profile().unwrap().id, "beta");
    assert_eq!(m.switch_profile("alpha"), Ok(()));
    assert_eq!(m.get_active_profile().unwrap().id, "alpha");
}

#[test]
fn settings_update_and_delete() {
    let mut m = manager();
    m.create_profile_with("alpha".to_string(), "A", 1, false, PathBuf::from("/a"));
    let mut s = ProfileSettings::default();
    s.proxy_enabled = true;
    s.proxy_config = Some(ProfileProxyConfig {
        host: "10.0.0.1".to_string(),
        port: 3128,
        protocol: "http".to_string(),
        username: None,
        password: None,
    });
    assert_eq!(m.update_settings("alpha", s), Ok(()));
    assert_eq!(m.get_profile("alpha").unwrap().settings.proxy_config.unwrap().port, 3128);
    assert_eq!(m.update_settings("zz", ProfileSettings::default()), Err(ProfileError::NotFound));
    let removed = m.delete_profile("alpha").unwrap();
    assert_eq!(removed.data_dir, PathBuf::from("/a"));
    assert!(m.delete_profile("alpha").is_none());
    assert!(m.list_profiles().is_empty());
}

#[test]
fn import_takes_new_id_and_directory() {
    let mut m = manager();
    let original = m.create_profile_with("alpha".to_string(), "A", 7, true, PathBuf::from("/a"));
    let imported = m.import_profile_with(original, "gamma".to_string(), PathBuf::from("/z"));
    assert_eq!(imported.id, "gamma");
    assert_eq!(imported.data_dir, PathBuf::from("/z"));
    assert_eq!(imported.name, "A");
    assert_eq!(imported.created_at, 7);
    assert_eq!(m.list_profiles().len(), 2);
    // storing under an existing id replaces that profile
    let again = m.get_profile("gamma").unwrap();
    m.import_profile_with(again, "alpha".to_string(), PathBuf::from("/b"));
    assert_eq!(m.list_profiles().len(), 2);
    assert_eq!(m.get_profile("alpha").unwrap().data_dir, PathBuf::from("/b"));
}

#[test]
fn location_is_planned_before_anything_is_stored() {
    let mut m = manager();
    let (id, dir) = m.new_profile_location();
    assert_eq!(id.len(), 36);
    assert_eq!(dir, PathBuf::from("/tmp/profiles").join(&id));
    assert!(m.list_profiles().is_empty());
    let p = m.create_profile_at(id.clone(), dir.clone(), "Later", false);
    assert_eq!(p.id, id);
    assert_eq!(p.data_dir, dir);
    assert_eq!(p.created_at, p.last_used);
    assert!(p.settings.language.is_empty() && p.settings.user_agent.is_none());
    assert_eq!(m.get_profile(&id).unwrap().name, "Later");
}

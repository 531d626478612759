use orchestrator::config::MALFORMED_CONFIG;
use orchestrator::error::OrchestratorError;
use orchestrator::config::{
    duplicate_profile, entry_file_name, is_entry_file, merged_settings, new_profile,
    resolve_value, setting_entries, setting_file, sort_profiles, sort_themes, KeybindingStore,
    ProfileStore, SettingStore, Theme, ThemeOrigin, ThemeStore,
};
use orchestrator::entities::{ProjectId, SettingEntry, SettingScope};
use orchestrator::strmap::StringMap;

fn defaults() -> StringMap {
    let mut m = StringMap::new();
    m.insert("new-session", "ctrl+n");
    m.insert("close-surface", "ctrl+w");
    m.insert("rename", "F2");
    m
}

#[test]
fn defaults_returns_static_keymap() {
    let s = KeybindingStore::new("/tmp/keybindings-test", defaults());
    assert_eq!(s.defaults().get("rename").map(String::as_str), Some("F2"));
    assert_eq!(
        s.defaults().get("new-session").map(String::as_str),
        Some("ctrl+n")
    );
}

#[test]
fn overrides_rebind_reset_and_clear() {
    let mut overrides = StringMap::new();
    overrides.insert("rename", "ctrl+r");
    overrides.insert("new-session", "ctrl+t");
    assert_eq!(overrides.get("rename").map(String::as_str), Some("ctrl+r"));
    overrides.remove("rename");
    assert!(!overrides.contains_key("rename"));
    overrides.remove("never-overridden");
    overrides.clear();
    assert!(overrides.sorted_entries().is_empty());
}

#[test]
fn setting_files_are_per_scope() {
    assert_eq!(setting_file(&SettingScope::Global), "config/settings/global.json");
    assert_eq!(
        setting_file(&SettingScope::Project(ProjectId::new("p1"))),
        "config/settings/project/p1.json"
    );
    assert_eq!(SettingStore::new("/root").root(), "/root");
}

#[test]
fn settings_list_sorted_and_resolve_with_precedence() {
    let mut global = StringMap::new();
    global.insert("b", "2");
    global.insert("a", "1");
    let mut project = StringMap::new();
    project.insert("b", "20");
    project.insert("c", "30");
    assert_eq!(
        setting_entries(&global),
        vec![
            SettingEntry { key: "a".to_string(), value_json: "1".to_string() },
            SettingEntry { key: "b".to_string(), value_json: "2".to_string() },
        ]
    );
    let merged = merged_settings(&global, &project);
    let keys: Vec<String> = setting_entries(&merged).into_iter().map(|e| e.value_json).collect();
    assert_eq!(keys, vec!["1".to_string(), "20".to_string(), "30".to_string()]);
    assert_eq!(resolve_value(&project, &global, "b").as_deref(), Some("20"));
    assert_eq!(resolve_value(&project, &global, "a").as_deref(), Some("1"));
    assert_eq!(resolve_value(&project, &global, "z"), None);
}

#[test]
fn entry_files_skip_the_active_file() {
    assert!(is_entry_file("dark.json"));
    assert!(!is_entry_file("active.json"));
    assert!(!is_entry_file("notes.txt"));
    assert!(!is_entry_file("json"));
    assert_eq!(entry_file_name("dark"), "dark.json");
}

#[test]
fn profiles_duplicate_and_sort_by_id() {
    let mut p = new_profile("b", "Bee");
    p.settings.insert("font", "12");
    let copy = duplicate_profile(&p, "a", "Ay");
    assert_eq!(copy.settings.get("font").map(String::as_str), Some("12"));
    let sorted = sort_profiles(&vec![p, copy]);
    let ids: Vec<&str> = sorted.iter().map(|p| p.id.as_str()).collect();
    assert_eq!(ids, vec!["a", "b"]);
    assert_eq!(ProfileStore::new("/r").root(), "/r");
}

#[test]
fn themes_sort_by_id() {
    let t = |id: &str, origin| Theme { id: id.to_string(), name: id.to_string(), origin, data_json: None };
    let sorted = sort_themes(&vec![t("zeta", ThemeOrigin::Custom), t("alpha", ThemeOrigin::Prebuilt)]);
    assert_eq!(sorted[0].id, "alpha");
    assert_eq!(sorted[1].origin, ThemeOrigin::Custom);
    assert_eq!(ThemeStore::new("/r").root(), "/r");
}

#[test]
fn settings_files_round_trip_through_json() {
    let s = SettingStore::new("/cfg");
    let t1 = s.apply(None, "theme", "\"dark\"").unwrap();
    assert_eq!(s.get(Some(&t1), "theme").unwrap().as_deref(), Some("\"dark\""));
    let t2 = s.apply(Some(&t1), "font", "14").unwrap();
    let listed = s.list(Some(&t2)).unwrap();
    assert_eq!(listed.iter().map(|e| e.key.as_str()).collect::<Vec<_>>(), vec!["font", "theme"]);
    let t3 = s.reset(Some(&t2), "theme").unwrap();
    assert_eq!(s.get(Some(&t3), "theme").unwrap(), None);
    assert_eq!(s.get(None, "theme").unwrap(), None);
    assert_eq!(
        s.get(Some("{ not json"), "theme").unwrap_err(),
        OrchestratorError::Persistence(MALFORMED_CONFIG.to_string())
    );
    let proj = s.apply(None, "theme", "\"light\"").unwrap();
    assert_eq!(s.resolve(Some(&proj), Some(&t2), "theme").unwrap().as_deref(), Some("\"light\""));
    assert_eq!(s.resolve(None, Some(&t2), "font").unwrap().as_deref(), Some("14"));
    let all = s.resolve_all(Some(&t2), Some(&proj)).unwrap();
    assert_eq!(all.len(), 2);
    assert_eq!(all[1].value_json, "\"light\"");
}

#[test]
fn keybinding_overrides_round_trip_through_json() {
    let k = KeybindingStore::new("/cfg", StringMap::new());
    let t = k.rebind(None, "new-session", "ctrl+t").unwrap();
    let o = k.overrides(Some(&t)).unwrap();
    assert_eq!(o.get("new-session").map(String::as_str), Some("ctrl+t"));
    let t2 = k.reset(Some(&t), "new-session").unwrap();
    assert!(k.overrides(Some(&t2)).unwrap().get("new-session").is_none());
    assert!(k.overrides(Some(&k.reset_all())).unwrap().get("x").is_none());
}

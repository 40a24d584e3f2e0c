use obsidian_launcher::config::{
    cache_dir, cache_dir_from, config_dir, config_dir_from, config_file_in, home_dir, home_dir_from, Config,
};
use obsidian_launcher::layer_shell::{detect_wayland, has_layer_shell, is_layer_shell_interface, is_wayland};
use obsidian_launcher::watcher::{is_vault_change, ChangeKind, DebounceAction, Debouncer, WatcherEvent};

#[test]
fn default_settings() {
    let c = Config::default_in("/home/u");
    assert_eq!(c.vault_path, "/home/u/Obsidian Vault");
    assert_eq!(c.index_path, None);
    assert_eq!(c.max_results, 50);
    assert_eq!(c.hotkey.as_deref(), Some("Super+Space"));
    let d = Config::default();
    assert!(d.vault_path.ends_with("/Obsidian Vault"));
}

#[test]
fn where_things_live() {
    assert_eq!(home_dir_from(None), "/tmp");
    assert_eq!(home_dir_from(Some("/h".into())), "/h");
    assert_eq!(cache_dir_from(None, "/h"), "/h/.cache");
    assert_eq!(cache_dir_from(Some("/c".into()), "/h"), "/c");
    assert_eq!(config_dir_from(None, "/h"), "/h/.config");
    assert_eq!(config_file_in("/h/.config"), "/h/.config/obsidian-launcher/config.toml");
    let c = Config::default_in("/h");
    assert_eq!(c.index_path_in("/h/.cache"), "/h/.cache/obsidian-launcher/index");
    let mut c = c;
    c.index_path = Some("/idx".into());
    assert_eq!(c.index_path_in("/h/.cache"), "/idx");
    assert_eq!(c.index_path(), "/idx");
}

#[test]
fn which_changes_count() {
    let md = vec!["/v/a.txt".to_string(), "/v/n.MD".to_string()];
    let txt = vec!["/v/a.txt".to_string()];
    assert!(is_vault_change(&ChangeKind::Create, &md));
    assert!(is_vault_change(&ChangeKind::ModifyData, &md));
    assert!(is_vault_change(&ChangeKind::Remove, &md));
    assert!(!is_vault_change(&ChangeKind::Other, &md));
    assert!(!is_vault_change(&ChangeKind::Create, &txt));
    assert!(!is_vault_change(&ChangeKind::Create, &vec![]));
}

#[test]
fn bursts_of_changes_rebuild_once() {
    let mut d = Debouncer::new();
    assert!(!d.on_tick());
    for _ in 0..3 {
        assert!(matches!(d.on_message(Some(WatcherEvent::VaultChanged)), DebounceAction::ResetTimer));
    }
    assert!(d.on_tick());
    assert!(!d.on_tick());
    assert!(matches!(d.on_message(None), DebounceAction::Stop));
    assert!(!d.channel_alive);
}

#[test]
fn display_server() {
    assert!(detect_wayland(true, None));
    assert!(detect_wayland(false, Some("wayland")));
    assert!(!detect_wayland(false, Some("x11")));
    assert!(!detect_wayland(false, None));
    assert!(!is_wayland(None));
    assert!(is_wayland(Some(true)));
    assert!(has_layer_shell(Some(true), Some(true)));
    assert!(!has_layer_shell(Some(false), Some(true)));
    assert!(!has_layer_shell(Some(true), None));
    assert!(is_layer_shell_interface("zwlr_layer_shell_v1"));
    assert!(!is_layer_shell_interface("wl_compositor"));
}

#[test]
fn system_directories_have_their_shape() {
    assert!(!home_dir().is_empty());
    let cache = cache_dir();
    assert!(cache.starts_with('/') || cache.ends_with("/.cache"));
    let config = config_dir();
    assert!(config.starts_with('/') || config.ends_with("/.config"));
}

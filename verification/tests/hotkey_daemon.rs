use std::collections::HashSet;

use evdev::Key;
use obsidian_launcher::config::Config;
use obsidian_launcher::hotkey_daemon::{
    handle_key_event, hotkey_fires, is_event_device, is_modifier, modifier_active,
    modifier_group_count, on_fetch_error, parse_hotkey, target_modifier_group_count,
    FetchFailure, HotkeyDaemon, KEY_LEFTCTRL, KEY_LEFTMETA, KEY_SPACE,
};

#[test]
fn test_parse_hotkey_super_space() {
    let (mods, key) = parse_hotkey("Super+Space");
    assert_eq!(mods, vec![Key::KEY_LEFTMETA.code()]);
    assert_eq!(key, Key::KEY_SPACE.code());
}

#[test]
fn test_parse_hotkey_ctrl_shift_f5() {
    let (mods, key) = parse_hotkey("Ctrl+Shift+F5");
    assert_eq!(mods, vec![Key::KEY_LEFTCTRL.code(), Key::KEY_LEFTSHIFT.code()]);
    assert_eq!(key, Key::KEY_F5.code());
}

#[test]
fn test_parse_hotkey_just_key() {
    let (mods, key) = parse_hotkey("Space");
    assert!(mods.is_empty());
    assert_eq!(key, Key::KEY_SPACE.code());
}

#[test]
fn test_parse_hotkey_empty_defaults_to_space() {
    let (mods, key) = parse_hotkey("");
    assert!(mods.is_empty());
    assert_eq!(key, Key::KEY_SPACE.code());
}

#[test]
fn test_parse_hotkey_aliases() {
    let (mods, _key) = parse_hotkey("Control+Option+Meta");
    assert_eq!(
        mods,
        vec![Key::KEY_LEFTCTRL.code(), Key::KEY_LEFTALT.code(), Key::KEY_LEFTMETA.code()]
    );
}

#[test]
fn test_is_modifier_true() {
    assert!(is_modifier(Key::KEY_LEFTCTRL.code()));
    assert!(is_modifier(Key::KEY_RIGHTCTRL.code()));
    assert!(is_modifier(Key::KEY_LEFTALT.code()));
    assert!(is_modifier(Key::KEY_LEFTMETA.code()));
}

#[test]
fn test_is_modifier_false() {
    assert!(!is_modifier(Key::KEY_A.code()));
    assert!(!is_modifier(Key::KEY_SPACE.code()));
    assert!(!is_modifier(Key::KEY_ENTER.code()));
}

#[test]
fn test_modifier_active_left_right() {
    let mut pressed = HashSet::new();
    pressed.insert(Key::KEY_LEFTCTRL.code());
    assert!(modifier_active(Key::KEY_RIGHTCTRL.code(), &pressed));
}

#[test]
fn test_modifier_active_missing() {
    let pressed = HashSet::new();
    assert!(!modifier_active(Key::KEY_LEFTMETA.code(), &pressed));
}

#[test]
fn test_modifier_group_count_none() {
    let pressed = HashSet::new();
    assert_eq!(modifier_group_count(&pressed), 0);
}

#[test]
fn test_modifier_group_count_one() {
    let mut pressed = HashSet::new();
    pressed.insert(Key::KEY_LEFTCTRL.code());
    assert_eq!(modifier_group_count(&pressed), 1);
}

#[test]
fn test_modifier_group_count_left_right_same_group() {
    let mut pressed = HashSet::new();
    pressed.insert(Key::KEY_LEFTCTRL.code());
    pressed.insert(Key::KEY_RIGHTCTRL.code());
    assert_eq!(modifier_group_count(&pressed), 1);
}

#[test]
fn test_modifier_group_count_multiple_groups() {
    let mut pressed = HashSet::new();
    pressed.insert(Key::KEY_LEFTCTRL.code());
    pressed.insert(Key::KEY_LEFTALT.code());
    assert_eq!(modifier_group_count(&pressed), 2);
}

#[test]
fn test_target_modifier_group_count() {
    assert_eq!(target_modifier_group_count(&[]), 0);
    assert_eq!(target_modifier_group_count(&[Key::KEY_LEFTCTRL.code()]), 1);
    assert_eq!(
        target_modifier_group_count(&[Key::KEY_LEFTCTRL.code(), Key::KEY_LEFTALT.code()]),
        2
    );
    assert_eq!(
        target_modifier_group_count(&[
            Key::KEY_LEFTCTRL.code(),
            Key::KEY_LEFTALT.code(),
            Key::KEY_LEFTMETA.code()
        ]),
        3
    );
}

#[test]
fn key_codes_match_evdev() {
    assert_eq!(KEY_LEFTCTRL, Key::KEY_LEFTCTRL.code());
    assert_eq!(KEY_LEFTMETA, Key::KEY_LEFTMETA.code());
    assert_eq!(KEY_SPACE, Key::KEY_SPACE.code());
    let (_, z) = parse_hotkey("z");
    assert_eq!(z, Key::KEY_Z.code());
    let (_, nine) = parse_hotkey("9");
    assert_eq!(nine, Key::KEY_9.code());
    let (_, f12) = parse_hotkey("F12");
    assert_eq!(f12, Key::KEY_F12.code());
    let (_, del) = parse_hotkey("Delete");
    assert_eq!(del, Key::KEY_DELETE.code());
}

#[test]
fn parse_hotkey_trims_parts_and_ignores_case() {
    let (mods, key) = parse_hotkey(" cTrL + ALT+ Return ");
    assert_eq!(mods, vec![Key::KEY_LEFTCTRL.code(), Key::KEY_LEFTALT.code()]);
    assert_eq!(key, Key::KEY_ENTER.code());
}

#[test]
fn parse_hotkey_last_key_wins_and_unknown_parts_are_ignored() {
    let (mods, key) = parse_hotkey("Win+Bogus+A+B");
    assert_eq!(mods, vec![Key::KEY_LEFTMETA.code()]);
    assert_eq!(key, Key::KEY_B.code());
    let (mods, key) = parse_hotkey("Cmd+Nothing");
    assert_eq!(mods, vec![Key::KEY_LEFTMETA.code()]);
    assert_eq!(key, Key::KEY_SPACE.code());
}

#[test]
fn hotkey_fires_only_with_exactly_its_modifiers() {
    let target = [Key::KEY_LEFTMETA.code()];
    let mut pressed = HashSet::new();
    assert!(!hotkey_fires(&target, &pressed));
    pressed.insert(Key::KEY_RIGHTMETA.code());
    assert!(hotkey_fires(&target, &pressed));
    pressed.insert(Key::KEY_LEFTSHIFT.code());
    assert!(!hotkey_fires(&target, &pressed));
    let none: [u16; 0] = [];
    assert!(!hotkey_fires(&none, &pressed));
    assert!(hotkey_fires(&none, &HashSet::new()));
}

#[test]
fn key_events_track_modifiers_and_launch() {
    let (mods, key) = parse_hotkey("Super+Space");
    let mut pressed = HashSet::new();
    assert!(!handle_key_event(&mut pressed, Key::KEY_SPACE.code(), 1, &mods, key));
    assert!(!handle_key_event(&mut pressed, Key::KEY_LEFTMETA.code(), 1, &mods, key));
    assert!(pressed.contains(&Key::KEY_LEFTMETA.code()));
    assert!(!handle_key_event(&mut pressed, Key::KEY_SPACE.code(), 2, &mods, key));
    assert!(handle_key_event(&mut pressed, Key::KEY_SPACE.code(), 1, &mods, key));
    assert!(!handle_key_event(&mut pressed, Key::KEY_A.code(), 1, &mods, key));
    assert!(!pressed.contains(&Key::KEY_A.code()));
    assert!(!handle_key_event(&mut pressed, Key::KEY_LEFTMETA.code(), 0, &mods, key));
    assert!(pressed.is_empty());
    assert!(!handle_key_event(&mut pressed, Key::KEY_SPACE.code(), 1, &mods, key));
}

#[test]
fn daemon_target_comes_from_config() {
    let mut config = Config::default_in("/home/u");
    config.hotkey = Some("Alt+X".to_string());
    let daemon = HotkeyDaemon::new(config);
    assert!(daemon.running);
    assert_eq!(daemon.target(), (vec![Key::KEY_LEFTALT.code()], Key::KEY_X.code()));
    let mut config = Config::default_in("/home/u");
    config.hotkey = None;
    assert_eq!(HotkeyDaemon::new(config).target(), (vec![], Key::KEY_SPACE.code()));
}

#[test]
fn device_names_and_fetch_errors() {
    assert!(is_event_device("event12"));
    assert!(!is_event_device("mouse0"));
    assert!(!is_event_device("even"));
    assert!(matches!(on_fetch_error(Some(19)), FetchFailure::Disconnected));
    assert!(matches!(on_fetch_error(Some(5)), FetchFailure::Retry));
    assert!(matches!(on_fetch_error(None), FetchFailure::Retry));
}

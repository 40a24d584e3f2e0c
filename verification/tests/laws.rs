use evdev::Key;
use obsidian_launcher::config::Config;
use obsidian_launcher::hotkey_daemon::{
    parse_hotkey, ActivePaths, KEY_LEFTALT, KEY_LEFTCTRL, KEY_LEFTMETA, KEY_LEFTSHIFT,
};
use obsidian_launcher::index::{document_of, phrase_query, search_hit};
use obsidian_launcher::links::encode_path;
use obsidian_launcher::text::{parse_usize, replace_str, usize_to_string};
use obsidian_launcher::ui::{
    active_listeners, preview, recording_key_message, settings_view_model, strip_emoji, update,
    Action, KeyInput, Message, ModifierState, NamedKey, State,
};
use obsidian_launcher::vault::{scan_wikilinks, tags_in_text, Note};
use obsidian_launcher::watcher::{Debouncer, WatcherEvent};

/// Reads an escaped phrase body back: a backslash stands for the next character.
fn read_escaped(s: &str) -> String {
    let mut out = String::new();
    let mut chars = s.chars();
    while let Some(c) = chars.next() {
        if c == '\\' {
            match chars.next() {
                Some(d) => out.push(d),
                None => out.push(c),
            }
        } else {
            out.push(c);
        }
    }
    out
}

#[test]
fn shown_titles_are_shown_as_they_are() {
    for title in ["  🚀 Launch ✨ ", "Plain", "☀️", "", " a \u{200D} b "] {
        let once = strip_emoji(title);
        assert_eq!(strip_emoji(&once), once);
    }
    assert_eq!(strip_emoji("  🚀 Launch ✨ "), "Launch");
}

#[test]
fn wikilink_targets_are_clean() {
    let links = scan_wikilinks("See [[ Alpha | shown ]], [[ ]], [[Beta|]] and [[|x]] or [[ Gamma ]].").unwrap();
    assert_eq!(links, vec!["Alpha".to_string(), "Beta".to_string(), "Gamma".to_string()]);
    for t in &links {
        assert!(!t.is_empty());
        assert_eq!(t.trim(), t);
        assert!(!t.contains('|') && !t.contains(']'));
    }
}

#[test]
fn tags_are_clean() {
    let tags = tags_in_text("##double #end!? #mid#dle #... #ok");
    assert_eq!(tags, vec!["double".to_string(), "end".to_string(), "mid#dle".to_string(), "ok".to_string()]);
    for t in &tags {
        assert!(!t.is_empty());
        assert!(!t.starts_with('#'));
        assert!(!t.ends_with(|c: char| c.is_ascii_punctuation()));
        assert!(!t.contains(char::is_whitespace));
    }
}

#[test]
fn escaped_queries_read_back_as_typed() {
    for q in ["plain words", "say \"hi\"", "back\\slash", "\\\"", "end\\"] {
        let p = phrase_query(q);
        assert!(p.starts_with('"') && p.ends_with('"'));
        assert_eq!(read_escaped(&p[1..p.len() - 1]), q);
    }
}

#[test]
fn encoded_paths_keep_their_folders() {
    let path = "Daily Notes/2024/été + plans.md";
    let encoded = encode_path(path);
    assert_eq!(encoded, "Daily%20Notes/2024/%C3%A9t%C3%A9%20%2B%20plans.md");
    assert_eq!(encoded.split('/').count(), path.split('/').count());
    assert!(encoded.chars().all(|c| c.is_ascii_alphanumeric() || "-._~%/".contains(c)));
}

#[test]
fn a_recorded_shortcut_is_read_back_by_the_daemon() {
    let mut config = Config::default_in("/home/u");
    config.vault_path = "/v".to_string();
    let mut s = State::new(config);
    update(&mut s, Message::StartRecordingHotkey);
    let held = ModifierState { control: true, alt: true, shift: true, logo: true };
    let message = recording_key_message(&KeyInput::Character("k".to_string()), &held).unwrap();
    update(&mut s, message);
    assert_eq!(s.settings.hotkey, "Ctrl+Alt+Shift+Super+K");
    let (mods, key) = parse_hotkey(&s.settings.hotkey);
    assert_eq!(mods, vec![KEY_LEFTCTRL, KEY_LEFTALT, KEY_LEFTSHIFT, KEY_LEFTMETA]);
    assert_eq!(key, Key::KEY_K.code());

    update(&mut s, Message::StartRecordingHotkey);
    let held = ModifierState { control: false, alt: false, shift: true, logo: false };
    let message = recording_key_message(&KeyInput::Named(NamedKey::F5), &held).unwrap();
    update(&mut s, message);
    assert_eq!(s.settings.hotkey, "Shift+F5");
    assert_eq!(parse_hotkey(&s.settings.hotkey), (vec![KEY_LEFTSHIFT], Key::KEY_F5.code()));
}

#[test]
fn counts_read_back_as_written() {
    for n in [0usize, 7, 10, 50, 1234, usize::MAX] {
        assert_eq!(parse_usize(&usize_to_string(n)), Some(n));
    }
}

#[test]
fn unchanged_settings_save_back() {
    let mut config = Config::default_in("/home/u");
    config.vault_path = "/v".to_string();
    config.max_results = 37;
    config.index_path = Some("/elsewhere".to_string());
    let mut s = State::new(config);
    update(&mut s, Message::OpenSettings);
    match update(&mut s, Message::SaveSettings) {
        Action::SaveConfig(c) => {
            assert_eq!(c.vault_path, "/v");
            assert_eq!(c.max_results, 37);
            assert_eq!(c.hotkey.as_deref(), Some("Super+Space"));
            assert!(c.index_path.is_none());
        }
        _ => panic!("expected a save"),
    }
}

fn fresh_state() -> State {
    let mut config = Config::default_in("/home/u");
    config.vault_path = "/v".to_string();
    State::new(config)
}

#[test]
fn every_listed_key_is_read_back_by_the_daemon() {
    let keys: Vec<(KeyInput, Key)> = vec![
        (KeyInput::Named(NamedKey::Space), Key::KEY_SPACE),
        (KeyInput::Named(NamedKey::Enter), Key::KEY_ENTER),
        (KeyInput::Named(NamedKey::Tab), Key::KEY_TAB),
        (KeyInput::Named(NamedKey::Delete), Key::KEY_DELETE),
        (KeyInput::Named(NamedKey::ArrowUp), Key::KEY_UP),
        (KeyInput::Named(NamedKey::ArrowDown), Key::KEY_DOWN),
        (KeyInput::Named(NamedKey::ArrowLeft), Key::KEY_LEFT),
        (KeyInput::Named(NamedKey::ArrowRight), Key::KEY_RIGHT),
        (KeyInput::Named(NamedKey::F1), Key::KEY_F1),
        (KeyInput::Named(NamedKey::F12), Key::KEY_F12),
        (KeyInput::Character("a".to_string()), Key::KEY_A),
        (KeyInput::Character("Z".to_string()), Key::KEY_Z),
        (KeyInput::Character("0".to_string()), Key::KEY_0),
        (KeyInput::Character("9".to_string()), Key::KEY_9),
    ];
    for (key, code) in keys {
        let mut s = fresh_state();
        update(&mut s, Message::StartRecordingHotkey);
        let held = ModifierState { control: true, alt: false, shift: false, logo: true };
        let message = recording_key_message(&key, &held).unwrap();
        update(&mut s, message);
        assert_eq!(parse_hotkey(&s.settings.hotkey), (vec![KEY_LEFTCTRL, KEY_LEFTMETA], code.code()));
    }
    // Esc and Backspace end recording, but their names are read the same way.
    assert_eq!(parse_hotkey("Ctrl+Esc"), (vec![KEY_LEFTCTRL], Key::KEY_ESC.code()));
    assert_eq!(parse_hotkey("Backspace"), (vec![], Key::KEY_BACKSPACE.code()));
}

#[test]
fn previews_show_the_first_three_lines() {
    assert_eq!(preview("one\ntwo\nthree\nfour\nfive"), "one\ntwo\nthree");
    assert_eq!(preview("one\ntwo"), "one\ntwo");
    assert_eq!(preview(""), "");
    assert_eq!(preview("a\n\nb\n"), "a\n\nb");
}

#[test]
fn the_settings_screen_follows_the_form() {
    let mut s = fresh_state();
    update(&mut s, Message::OpenSettings);
    let v = settings_view_model(&s.settings);
    assert_eq!(v.hotkey_label, "Super+Space");
    assert!(matches!(v.hotkey_press, Message::StartRecordingHotkey));
    assert_eq!(v.hint, "Click to record");
    assert_eq!(v.save_label, "Save");
    assert!(v.save_enabled);
    assert!(v.saved_note.is_none() && v.error_note.is_none());
    update(&mut s, Message::StartRecordingHotkey);
    let v = settings_view_model(&s.settings);
    assert_eq!(v.hotkey_label, "Listening...");
    assert!(matches!(v.hotkey_press, Message::StopRecordingHotkey));
    assert_eq!(v.hint, "Press your shortcut (Esc to cancel)");
    update(&mut s, Message::StopRecordingHotkey);
    update(&mut s, Message::SaveSettings);
    let v = settings_view_model(&s.settings);
    assert_eq!(v.save_label, "Saving...");
    assert!(!v.save_enabled);
    update(&mut s, Message::SettingsSaved(Err("disk full".to_string())));
    let v = settings_view_model(&s.settings);
    assert_eq!(v.error_note.as_deref(), Some("✗ disk full"));
    update(&mut s, Message::SaveSettings);
    update(&mut s, Message::SettingsSaved(Ok(())));
    let v = settings_view_model(&s.settings);
    assert_eq!(v.saved_note.as_deref(), Some("✓ Settings saved!"));
}

#[test]
fn the_recorder_listens_only_while_recording() {
    let mut s = fresh_state();
    let l = active_listeners(&s);
    assert!(l.input && !l.recording);
    update(&mut s, Message::StartRecordingHotkey);
    let l = active_listeners(&s);
    assert!(l.input && l.recording);
    update(&mut s, Message::StopRecordingHotkey);
    assert!(!active_listeners(&s).recording);
}

#[test]
fn each_keyboard_gets_one_listener() {
    let mut active = ActivePaths::new();
    assert!(active.claim("/dev/input/event3"));
    assert!(!active.claim("/dev/input/event3"));
    assert!(active.claim("/dev/input/event7"));
    assert!(active.contains("/dev/input/event7"));
    active.release("/dev/input/event3");
    assert!(!active.contains("/dev/input/event3"));
    assert_eq!(active.list(), vec!["/dev/input/event7".to_string()]);
    assert!(active.claim("/dev/input/event3"));
}

#[test]
fn a_tick_rebuilds_exactly_when_a_change_came_since_the_last() {
    let mut d = Debouncer::new();
    assert!(!d.on_tick());
    d.on_message(Some(WatcherEvent::VaultChanged));
    assert!(d.on_tick());
    assert!(!d.on_tick());
    d.on_message(Some(WatcherEvent::VaultChanged));
    d.on_message(Some(WatcherEvent::VaultChanged));
    d.on_message(Some(WatcherEvent::VaultChanged));
    assert!(d.on_tick());
    d.on_message(Some(WatcherEvent::VaultChanged));
    d.on_message(None);
    assert!(!d.channel_alive);
    assert!(d.on_tick());
    assert!(!d.channel_alive);
    d.on_message(Some(WatcherEvent::VaultChanged));
    assert!(!d.channel_alive);
}

#[test]
fn stored_wikilinks_come_back_from_a_hit() {
    let note = Note {
        path: "/v/a.md".to_string(),
        title: "A".to_string(),
        content: String::new(),
        tags: vec![],
        wikilinks: vec!["Alpha".to_string(), "Beta-2".to_string(), "été".to_string()],
    };
    let doc = document_of(&note);
    let (_, _, links) = search_hit(Some(doc.title), Some(doc.path), Some(doc.wikilinks));
    assert_eq!(links, note.wikilinks);
}

#[test]
fn replacing_an_empty_pattern_is_like_std() {
    for (s, pat, with) in [("abc", "", "x"), ("", "", "x"), ("é", "", "-"), ("aaa", "aa", "b"), ("a\\b", "\\", "/")] {
        assert_eq!(replace_str(s, pat, with), s.replace(pat, with));
    }
}

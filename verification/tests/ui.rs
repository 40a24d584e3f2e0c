use obsidian_launcher::config::Config;
use obsidian_launcher::ui::{
    build_modifier_string, hotkey_display, input_key_message, key_to_string,
    recording_key_message, result_rows, search_results_from_hits, shows_no_results, strip_emoji,
    update, Action, KeyInput, Message, ModifierState, NamedKey, Screen, SearchResult, SettingsForm,
    State,
};

fn state() -> State {
    let mut config = Config::default_in("/home/u");
    config.vault_path = "/v".to_string();
    State::new(config)
}

fn result(path: &str) -> SearchResult {
    SearchResult {
        title: "T".to_string(),
        path: path.to_string(),
        folder: "f".to_string(),
        wikilinks: vec![],
        content: String::new(),
    }
}

fn mods(control: bool, alt: bool, shift: bool, logo: bool) -> ModifierState {
    ModifierState { control, alt, shift, logo }
}

#[test]
fn typing_starts_a_search() {
    let mut s = state();
    assert_eq!(s.status, "Initializing watcher...");
    match update(&mut s, Message::SearchChanged("rust".to_string())) {
        Action::Search { query, max_results } => {
            assert_eq!(query, "rust");
            assert_eq!(max_results, 50);
        }
        _ => panic!("expected a search"),
    }
    assert!(s.loading);
    assert_eq!(s.status, "Searching 'rust'...");
    assert!(matches!(update(&mut s, Message::SearchDone(vec![result("/v/a.md"), result("/v/b.md")])), Action::Idle));
    assert!(!s.loading);
    assert_eq!(s.status, "2 results");
    assert!(matches!(update(&mut s, Message::SearchChanged(String::new())), Action::Idle));
    assert!(s.results.is_empty());
    assert_eq!(s.status, "Ready");
}

#[test]
fn arrows_move_within_the_results() {
    let mut s = state();
    update(&mut s, Message::SearchDone(vec![result("/v/a.md"), result("/v/b.md")]));
    assert!(matches!(update(&mut s, Message::KeyPressed(KeyInput::Named(NamedKey::ArrowUp))), Action::Idle));
    assert_eq!(s.selected, 0);
    assert!(matches!(
        update(&mut s, Message::KeyPressed(KeyInput::Named(NamedKey::ArrowDown))),
        Action::Dispatch(Message::ScrollToSelected)
    ));
    assert_eq!(s.selected, 1);
    assert!(matches!(update(&mut s, Message::KeyPressed(KeyInput::Named(NamedKey::ArrowDown))), Action::Idle));
    assert_eq!(s.selected, 1);
    match update(&mut s, Message::OpenSelected) {
        Action::OpenNoteAndClose(Some(url)) => assert_eq!(url, "obsidian://open?file=b.md"),
        _ => panic!("expected the selected note to open"),
    }
    assert!(matches!(
        update(&mut s, Message::KeyPressed(KeyInput::Named(NamedKey::Escape))),
        Action::Dispatch(Message::Close)
    ));
    assert!(matches!(update(&mut s, Message::Close), Action::Exit));
}

#[test]
fn scrolling_keeps_five_results_above() {
    let mut s = state();
    s.selected = 7;
    assert!(matches!(update(&mut s, Message::ScrollToSelected), Action::ScrollTo(2)));
    s.selected = 3;
    assert!(matches!(update(&mut s, Message::ScrollToSelected), Action::ScrollTo(0)));
}

#[test]
fn settings_form_round_trip() {
    let mut s = state();
    update(&mut s, Message::OpenSettings);
    assert!(matches!(s.screen, Screen::Settings));
    assert_eq!(s.settings.max_results, "50");
    assert_eq!(s.settings.hotkey, "Super+Space");
    update(&mut s, Message::MaxResultsChanged("many".to_string()));
    update(&mut s, Message::SaveSettings);
    assert_eq!(s.settings.error.as_deref(), Some("Max results must be a number"));
    update(&mut s, Message::MaxResultsChanged("20".to_string()));
    assert!(s.settings.error.is_none());
    update(&mut s, Message::VaultPathChanged("/w".to_string()));
    match update(&mut s, Message::SaveSettings) {
        Action::SaveConfig(c) => {
            assert_eq!(c.vault_path, "/w");
            assert_eq!(c.max_results, 20);
            assert_eq!(c.hotkey.as_deref(), Some("Super+Space"));
            assert!(c.index_path.is_none());
        }
        _ => panic!("expected a save"),
    }
    assert!(s.settings.saving);
    assert!(matches!(update(&mut s, Message::SettingsSaved(Ok(()))), Action::ReloadConfig));
    assert!(s.settings.saved);
    let mut reloaded = Config::default_in("/home/u");
    reloaded.vault_path = "/w".to_string();
    assert!(matches!(update(&mut s, Message::ConfigReloaded(Ok(reloaded))), Action::RestartWatcher));
    assert_eq!(s.status, "New vault detected, rebuilding...");
    assert!(matches!(update(&mut s, Message::WatcherStarted(Ok(()))), Action::RebuildForNewVault));
    assert_eq!(s.status, "Watching vault for changes");
    update(&mut s, Message::CloseSettings);
    assert!(matches!(s.screen, Screen::Search));
}

#[test]
fn saving_with_the_same_vault_restarts_the_daemon() {
    let mut s = state();
    let mut same = Config::default_in("/home/u");
    same.vault_path = "/v/".to_string();
    update(&mut s, Message::ConfigReloaded(Ok(same)));
    assert!(matches!(update(&mut s, Message::WatcherStarted(Err("boom".to_string()))), Action::RestartDaemon));
    assert_eq!(s.status, "Settings saved");
    update(&mut s, Message::ConfigReloaded(Err("bad toml".to_string())));
    assert_eq!(s.settings.error.as_deref(), Some("Failed to reload config: bad toml"));
    update(&mut s, Message::WatcherStarted(Err("boom".to_string())));
    assert_eq!(s.status, "Watcher error: boom");
}

#[test]
fn recording_a_shortcut() {
    let mut s = state();
    update(&mut s, Message::StartRecordingHotkey);
    assert_eq!(hotkey_display(&s.settings), "Listening...");
    assert!(matches!(update(&mut s, Message::KeyPressed(KeyInput::Named(NamedKey::Escape))), Action::Idle));
    assert!(matches!(
        update(&mut s, Message::RecordHotkey(KeyInput::Named(NamedKey::Escape), String::new())),
        Action::Dispatch(Message::StopRecordingHotkey)
    ));
    assert!(matches!(
        update(&mut s, Message::RecordHotkey(KeyInput::Named(NamedKey::Shift), "Shift".to_string())),
        Action::Idle
    ));
    update(&mut s, Message::RecordHotkey(KeyInput::Character("k".to_string()), "Ctrl+Alt".to_string()));
    assert_eq!(s.settings.hotkey, "Ctrl+Alt+K");
    assert!(!s.settings.recording_hotkey);
    assert_eq!(hotkey_display(&s.settings), "Ctrl+Alt+K");
    update(&mut s, Message::StartRecordingHotkey);
    update(&mut s, Message::RecordHotkey(KeyInput::Named(NamedKey::F5), String::new()));
    assert_eq!(s.settings.hotkey, "F5");
}

#[test]
fn key_labels() {
    assert_eq!(key_to_string(&KeyInput::Named(NamedKey::Space)), "Space");
    assert_eq!(key_to_string(&KeyInput::Named(NamedKey::ArrowLeft)), "Left");
    assert_eq!(key_to_string(&KeyInput::Named(NamedKey::Escape)), "Esc");
    assert_eq!(key_to_string(&KeyInput::Named(NamedKey::Other("CapsLock".to_string()))), "CapsLock");
    assert_eq!(key_to_string(&KeyInput::Named(NamedKey::Other("MediaKeyPlay".to_string()))), "MediaPlay");
    assert_eq!(key_to_string(&KeyInput::Character("q".to_string())), "Q");
    assert_eq!(key_to_string(&KeyInput::Character("1".to_string())), "1");
    assert_eq!(key_to_string(&KeyInput::Character("é".to_string())), "é");
    assert_eq!(key_to_string(&KeyInput::Unidentified), "Unknown");
    assert_eq!(build_modifier_string(&mods(true, false, true, true)), "Ctrl+Shift+Super");
    assert_eq!(build_modifier_string(&mods(false, false, false, false)), "");
}

#[test]
fn listened_keys() {
    assert!(matches!(
        input_key_message(&KeyInput::Character(",".to_string()), &mods(true, false, false, false)),
        Some(Message::OpenSettings)
    ));
    assert!(matches!(
        input_key_message(&KeyInput::Character("r".to_string()), &mods(true, false, false, false)),
        Some(Message::RebuildIndex)
    ));
    assert!(input_key_message(&KeyInput::Character("r".to_string()), &mods(false, false, false, false)).is_none());
    assert!(matches!(
        input_key_message(&KeyInput::Named(NamedKey::Enter), &mods(false, false, false, false)),
        Some(Message::KeyPressed(KeyInput::Named(NamedKey::Enter)))
    ));
    assert!(input_key_message(&KeyInput::Named(NamedKey::Tab), &mods(false, false, false, false)).is_none());
    assert!(matches!(
        recording_key_message(&KeyInput::Named(NamedKey::Backspace), &mods(false, false, false, false)),
        Some(Message::StopRecordingHotkey)
    ));
    assert!(recording_key_message(&KeyInput::Named(NamedKey::Control), &mods(true, false, false, false)).is_none());
    match recording_key_message(&KeyInput::Character("x".to_string()), &mods(true, true, false, false)) {
        Some(Message::RecordHotkey(KeyInput::Character(c), m)) => {
            assert_eq!(c, "x");
            assert_eq!(m, "Ctrl+Alt");
        }
        _ => panic!("expected a recorded key"),
    }
}

#[test]
fn what_the_list_shows() {
    assert_eq!(strip_emoji(" 📝 Notes ✅"), "Notes");
    assert_eq!(strip_emoji("Plain"), "Plain");
    let mut s = state();
    update(&mut s, Message::SearchChanged("x".to_string()));
    assert!(!shows_no_results(&s));
    update(&mut s, Message::SearchDone(vec![]));
    assert!(shows_no_results(&s));
    let hits = vec![
        (
            "🚀 Launch".to_string(),
            "/v/projects/launch.md".to_string(),
            vec!["A".to_string(), "B".to_string()],
            "# Launch\nline two\nline three\nline four".to_string(),
        ),
        ("Plain".to_string(), "top.md".to_string(), vec![], "only line".to_string()),
    ];
    let results = search_results_from_hits(hits);
    assert_eq!(results[0].folder, "projects");
    assert_eq!(results[1].folder, "");
    update(&mut s, Message::SearchDone(results));
    let rows = result_rows(&s);
    assert_eq!(rows.len(), 2);
    assert_eq!(rows[0].title, "Launch");
    assert_eq!(rows[0].wikilinks_label.as_deref(), Some("[[2]]"));
    assert_eq!(rows[0].folder_label, " projects");
    assert!(rows[0].selected);
    assert!(rows[1].wikilinks_label.is_none());
    assert!(!rows[1].selected);
    assert_eq!(rows[0].preview, "# Launch\nline two\nline three");
    assert_eq!(rows[1].preview, "only line");
}

#[test]
fn browsing_for_a_vault() {
    let mut s = state();
    match update(&mut s, Message::BrowseVault) {
        Action::PickFolder(p) => assert_eq!(p, "/v"),
        _ => panic!("expected a folder picker"),
    }
    update(&mut s, Message::FolderPicked(None));
    assert_eq!(s.settings.vault_path, "/v");
    update(&mut s, Message::FolderPicked(Some("/elsewhere".to_string())));
    assert_eq!(s.settings.vault_path, "/elsewhere");
    let form: &SettingsForm = &s.settings;
    assert!(!form.saving);
}

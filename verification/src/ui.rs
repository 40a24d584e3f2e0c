//! The launcher window's behaviour: its state, the messages it reacts to,
//! what each message changes and what work it asks for, and the text the
//! window shows.
use vstd::prelude::*;

use crate::config::Config;
use crate::hotkey_daemon::{
    hotkey_spec, key_for, key_of, modifier_for, modifiers_of, part_name, KEY_0, KEY_1, KEY_2, KEY_3, KEY_4, KEY_5, KEY_6, KEY_7, KEY_8, KEY_9, KEY_A, KEY_B, KEY_BACKSPACE, KEY_C, KEY_D, KEY_DELETE, KEY_DOWN, KEY_E, KEY_ENTER, KEY_ESC, KEY_F, KEY_F1, KEY_F10, KEY_F11, KEY_F12, KEY_F2, KEY_F3, KEY_F4, KEY_F5, KEY_F6, KEY_F7, KEY_F8, KEY_F9, KEY_G, KEY_H, KEY_I, KEY_J, KEY_K, KEY_L, KEY_LEFT, KEY_LEFTALT, KEY_LEFTCTRL, KEY_LEFTMETA, KEY_LEFTSHIFT, KEY_M, KEY_N, KEY_O, KEY_P, KEY_Q, KEY_R, KEY_RIGHT, KEY_S, KEY_SPACE, KEY_T, KEY_TAB, KEY_U, KEY_UP, KEY_V, KEY_W, KEY_X, KEY_Y, KEY_Z,
};
use crate::links::{note_url, note_url_spec};
use crate::paths::{components, extract_folder, folder_name, same_path};
use crate::text::{
    all_ascii, ascii_lower, ascii_lowercase, ascii_upper, chars_of, concat, concat3, decimal, is_ascii_char,
    join, join_with, law_decimal_parses_back, lemma_split_join, lemma_split_no_sep,
    lemma_trim_fixed, lemma_trim_idempotent, lemma_trim_shape, owned, parse_usize,
    parse_usize_spec, replace_all, replace_str, split_char, split_on, string_of, trim, trim_bounds,
    usize_to_string,
};

verus! {

// ---------------------------------------------------------------------------
// Keys
// ---------------------------------------------------------------------------

/// A named key of the keyboard; `Other` carries the name of any key not
/// listed here.
#[derive(Debug)]
pub enum NamedKey {
    Space,
    Enter,
    Tab,
    Escape,
    Backspace,
    Delete,
    ArrowUp,
    ArrowDown,
    ArrowLeft,
    ArrowRight,
    F1,
    F2,
    F3,
    F4,
    F5,
    F6,
    F7,
    F8,
    F9,
    F10,
    F11,
    F12,
    Insert,
    Home,
    End,
    PageUp,
    PageDown,
    Control,
    Alt,
    Shift,
    Super,
    Other(String),
}

/// A key press: a named key, the text a key produces, or an unknown key.
#[derive(Debug)]
pub enum KeyInput {
    Named(NamedKey),
    Character(String),
    Unidentified,
}

/// The modifiers held during a key press.
pub struct ModifierState {
    pub control: bool,
    pub alt: bool,
    pub shift: bool,
    pub logo: bool,
}

impl Clone for NamedKey {
    fn clone(&self) -> (r: Self)
        ensures
            r == *self,
    {
        match self {
            NamedKey::Space => NamedKey::Space,
            NamedKey::Enter => NamedKey::Enter,
            NamedKey::Tab => NamedKey::Tab,
            NamedKey::Escape => NamedKey::Escape,
            NamedKey::Backspace => NamedKey::Backspace,
            NamedKey::Delete => NamedKey::Delete,
            NamedKey::ArrowUp => NamedKey::ArrowUp,
            NamedKey::ArrowDown => NamedKey::ArrowDown,
            NamedKey::ArrowLeft => NamedKey::ArrowLeft,
            NamedKey::ArrowRight => NamedKey::ArrowRight,
            NamedKey::F1 => NamedKey::F1,
            NamedKey::F2 => NamedKey::F2,
            NamedKey::F3 => NamedKey::F3,
            NamedKey::F4 => NamedKey::F4,
            NamedKey::F5 => NamedKey::F5,
            NamedKey::F6 => NamedKey::F6,
            NamedKey::F7 => NamedKey::F7,
            NamedKey::F8 => NamedKey::F8,
            NamedKey::F9 => NamedKey::F9,
            NamedKey::F10 => NamedKey::F10,
            NamedKey::F11 => NamedKey::F11,
            NamedKey::F12 => NamedKey::F12,
            NamedKey::Insert => NamedKey::Insert,
            NamedKey::Home => NamedKey::Home,
            NamedKey::End => NamedKey::End,
            NamedKey::PageUp => NamedKey::PageUp,
            NamedKey::PageDown => NamedKey::PageDown,
            NamedKey::Control => NamedKey::Control,
            NamedKey::Alt => NamedKey::Alt,
            NamedKey::Shift => NamedKey::Shift,
            NamedKey::Super => NamedKey::Super,
            NamedKey::Other(s) => NamedKey::Other(s.clone()),
        }
    }
}

impl Clone for KeyInput {
    fn clone(&self) -> (r: Self)
        ensures
            r == *self,
    {
        match self {
            KeyInput::Named(n) => KeyInput::Named(n.clone()),
            KeyInput::Character(s) => KeyInput::Character(s.clone()),
            KeyInput::Unidentified => KeyInput::Unidentified,
        }
    }
}

/// The label of a named key in a recorded shortcut.
pub open spec fn named_label(n: NamedKey) -> Seq<char> {
    match n {
        NamedKey::Space => "Space"@,
        NamedKey::Enter => "Enter"@,
        NamedKey::Tab => "Tab"@,
        NamedKey::Escape => "Esc"@,
        NamedKey::Backspace => "Backspace"@,
        NamedKey::Delete => "Delete"@,
        NamedKey::ArrowUp => "Up"@,
        NamedKey::ArrowDown => "Down"@,
        NamedKey::ArrowLeft => "Left"@,
        NamedKey::ArrowRight => "Right"@,
        NamedKey::F1 => "F1"@,
        NamedKey::F2 => "F2"@,
        NamedKey::F3 => "F3"@,
        NamedKey::F4 => "F4"@,
        NamedKey::F5 => "F5"@,
        NamedKey::F6 => "F6"@,
        NamedKey::F7 => "F7"@,
        NamedKey::F8 => "F8"@,
        NamedKey::F9 => "F9"@,
        NamedKey::F10 => "F10"@,
        NamedKey::F11 => "F11"@,
        NamedKey::F12 => "F12"@,
        NamedKey::Insert => "Insert"@,
        NamedKey::Home => "Home"@,
        NamedKey::End => "End"@,
        NamedKey::PageUp => "PageUp"@,
        NamedKey::PageDown => "PageDown"@,
        NamedKey::Control => "Control"@,
        NamedKey::Alt => "Alt"@,
        NamedKey::Shift => "Shift"@,
        NamedKey::Super => "Super"@,
        NamedKey::Other(name) => replace_all(replace_all(name@, "Named::"@, ""@), "Key"@, ""@),
    }
}

/// The label of a key in a recorded shortcut: a named key's label; a
/// one-byte character key upper-cased; other text as it is; `Unknown`.
pub open spec fn key_label(k: KeyInput) -> Seq<char> {
    match k {
        KeyInput::Named(n) => named_label(n),
        KeyInput::Character(c) => if c@.len() == 1 && is_ascii_char(c@[0]) {
            seq![ascii_upper(c@[0])]
        } else {
            c@
        },
        KeyInput::Unidentified => "Unknown"@,
    }
}

/// The held modifiers as in a shortcut, `Ctrl`, `Alt`, `Shift`, `Super` in
/// that order, joined with `+`.
pub open spec fn modifier_names(m: ModifierState) -> Seq<Seq<char>> {
    let a = if m.control {
        seq!["Ctrl"@]
    } else {
        Seq::empty()
    };
    let b = if m.alt {
        a.push("Alt"@)
    } else {
        a
    };
    let c = if m.shift {
        b.push("Shift"@)
    } else {
        b
    };
    if m.logo {
        c.push("Super"@)
    } else {
        c
    }
}

/// The label of a key in a recorded shortcut.
pub fn key_to_string(key: &KeyInput) -> (r: String)
    ensures
        r@ == key_label(*key),
{
    match key {
        KeyInput::Named(n) => match n {
            NamedKey::Space => owned("Space"),
            NamedKey::Enter => owned("Enter"),
            NamedKey::Tab => owned("Tab"),
            NamedKey::Escape => owned("Esc"),
            NamedKey::Backspace => owned("Backspace"),
            NamedKey::Delete => owned("Delete"),
            NamedKey::ArrowUp => owned("Up"),
            NamedKey::ArrowDown => owned("Down"),
            NamedKey::ArrowLeft => owned("Left"),
            NamedKey::ArrowRight => owned("Right"),
            NamedKey::F1 => owned("F1"),
            NamedKey::F2 => owned("F2"),
            NamedKey::F3 => owned("F3"),
            NamedKey::F4 => owned("F4"),
            NamedKey::F5 => owned("F5"),
            NamedKey::F6 => owned("F6"),
            NamedKey::F7 => owned("F7"),
            NamedKey::F8 => owned("F8"),
            NamedKey::F9 => owned("F9"),
            NamedKey::F10 => owned("F10"),
            NamedKey::F11 => owned("F11"),
            NamedKey::F12 => owned("F12"),
            NamedKey::Insert => owned("Insert"),
            NamedKey::Home => owned("Home"),
            NamedKey::End => owned("End"),
            NamedKey::PageUp => owned("PageUp"),
            NamedKey::PageDown => owned("PageDown"),
            NamedKey::Control => owned("Control"),
            NamedKey::Alt => owned("Alt"),
            NamedKey::Shift => owned("Shift"),
            NamedKey::Super => owned("Super"),
            NamedKey::Other(name) => {
                proof {
                    reveal_strlit("Named::");
                    reveal_strlit("Key");
                }
                let once = replace_str(name.as_str(), "Named::", "");
                replace_str(once.as_str(), "Key", "")
            },
        },
        KeyInput::Character(c) => {
            let v = chars_of(c.as_str());
            if v.len() == 1 && is_ascii(v[0]) {
                let ch = v[0];
                let up = if 'a' <= ch && ch <= 'z' {
                    let mut out: Vec<char> = Vec::new();
                    out.push(upper_of(ch));
                    string_of(&out, 0, 1)
                } else {
                    string_of(&v, 0, 1)
                };
                proof {
                    assert(v@.subrange(0, 1) =~= seq![ch]);
                }
                up
            } else {
                string_of(&v, 0, v.len())
            }
        },
        KeyInput::Unidentified => owned("Unknown"),
    }
}

/// Whether a character is ASCII.
fn is_ascii(c: char) -> (r: bool)
    ensures
        r == is_ascii_char(c),
{
    c <= '\u{7f}'
}

/// The ASCII upper-case of a lower-case ASCII letter.
fn upper_of(c: char) -> (r: char)
    requires
        'a' <= c <= 'z',
    ensures
        r == ascii_upper(c),
{
    match c {
        'a' => 'A',
        'b' => 'B',
        'c' => 'C',
        'd' => 'D',
        'e' => 'E',
        'f' => 'F',
        'g' => 'G',
        'h' => 'H',
        'i' => 'I',
        'j' => 'J',
        'k' => 'K',
        'l' => 'L',
        'm' => 'M',
        'n' => 'N',
        'o' => 'O',
        'p' => 'P',
        'q' => 'Q',
        'r' => 'R',
        's' => 'S',
        't' => 'T',
        'u' => 'U',
        'v' => 'V',
        'w' => 'W',
        'x' => 'X',
        'y' => 'Y',
        _ => 'Z',
    }
}

/// The held modifiers as written in a shortcut, such as `Ctrl+Shift`.
pub fn build_modifier_string(modifiers: &ModifierState) -> (r: String)
    ensures
        r@ == join(modifier_names(*modifiers), "+"@),
{
    let mut parts: Vec<String> = Vec::new();
    if modifiers.control {
        parts.push(owned("Ctrl"));
    }
    if modifiers.alt {
        parts.push(owned("Alt"));
    }
    if modifiers.shift {
        parts.push(owned("Shift"));
    }
    if modifiers.logo {
        parts.push(owned("Super"));
    }
    proof {
        assert(parts.deep_view() =~= modifier_names(*modifiers));
    }
    join_with(&parts, "+")
}

// ---------------------------------------------------------------------------
// Window state
// ---------------------------------------------------------------------------

/// Which screen the window shows.
pub enum Screen {
    Search,
    Settings,
}

/// A search result as the window lists it.
pub struct SearchResult {
    pub title: String,
    pub path: String,
    /// The name of the folder holding the note.
    pub folder: String,
    pub wikilinks: Vec<String>,
    /// The note's text, which its preview is taken from.
    pub content: String,
}

/// The settings screen's form.
pub struct SettingsForm {
    pub vault_path: String,
    pub max_results: String,
    pub hotkey: String,
    pub saving: bool,
    pub saved: bool,
    pub error: Option<String>,
    pub recording_hotkey: bool,
    pub pending_modifiers: String,
}

/// The window's state.
pub struct State {
    pub screen: Screen,
    pub config: Config,
    pub search_query: String,
    pub results: Vec<SearchResult>,
    pub selected: usize,
    pub loading: bool,
    pub status: String,
    pub settings: SettingsForm,
    /// After settings were saved and reloaded, while the watcher restarts:
    /// whether the vault changed.
    pub after_restart: Option<bool>,
}

/// What the window reacts to.
pub enum Message {
    SearchChanged(String),
    OpenSelected,
    OpenPath(String),
    SearchDone(Vec<SearchResult>),
    RebuildIndex,
    RebuildDone(bool),
    KeyPressed(KeyInput),
    Close,
    OpenSettings,
    CloseSettings,
    VaultPathChanged(String),
    MaxResultsChanged(String),
    StartRecordingHotkey,
    StopRecordingHotkey,
    RecordHotkey(KeyInput, String),
    FocusSearch,
    ScrollToSelected,
    SaveSettings,
    SettingsSaved(Result<(), String>),
    BrowseVault,
    /// The folder the user picked, if any.
    FolderPicked(Option<String>),
    /// The settings file was read again.
    ConfigReloaded(Result<Config, String>),
    /// The vault watcher was (re)started.
    WatcherStarted(Result<(), String>),
}

/// The work a message asks for, done outside the window's state.
pub enum Action {
    /// Nothing to do.
    Idle,
    /// Handle this message next.
    Dispatch(Message),
    /// Search the index for `query`, at most `max_results` hits; answer
    /// with `SearchDone`.
    Search { query: String, max_results: usize },
    /// Open this address, if any, then close the window.
    OpenNoteAndClose(Option<String>),
    /// Rebuild the index of the current vault; answer with `RebuildDone`.
    Rebuild,
    FocusSearch,
    /// Scroll the result list so that this result is at the top.
    ScrollTo(usize),
    /// Check that the vault exists and write these settings; answer with
    /// `SettingsSaved`.
    SaveConfig(Config),
    /// Read the settings file again; answer with `ConfigReloaded`.
    ReloadConfig,
    /// Restart the vault watcher; answer with `WatcherStarted`.
    RestartWatcher,
    /// Index the newly configured vault, then answer with `CloseSettings`.
    RebuildForNewVault,
    /// Restart the shortcut daemon's service.
    RestartDaemon,
    /// Ask the user for a folder, starting at this one; answer with
    /// `FolderPicked`.
    PickFolder(String),
    /// End the program.
    Exit,
}

/// The optional shortcut as the form shows it (empty for none).
pub open spec fn hotkey_text(h: Option<String>) -> Seq<char> {
    match h {
        Some(s) => s@,
        None => Seq::empty(),
    }
}

/// `f` is the form filled from `c`, untouched.
pub open spec fn fresh_form(f: SettingsForm, c: Config) -> bool {
    &&& f.vault_path@ == c.vault_path@
    &&& f.max_results@ == decimal(c.max_results as nat)
    &&& f.hotkey@ == hotkey_text(c.hotkey)
    &&& !f.saving
    &&& !f.saved
    &&& f.error is None
    &&& !f.recording_hotkey
    &&& f.pending_modifiers@.len() == 0
}

impl SettingsForm {
    /// The form filled from the settings.
    pub fn from_config(config: &Config) -> (f: SettingsForm)
        ensures
            fresh_form(f, *config),
    {
        SettingsForm {
            vault_path: config.vault_path.clone(),
            max_results: usize_to_string(config.max_results),
            hotkey: match &config.hotkey {
                Some(h) => h.clone(),
                None => String::new(),
            },
            saving: false,
            saved: false,
            error: None,
            recording_hotkey: false,
            pending_modifiers: String::new(),
        }
    }
}

impl State {
    /// The window as it opens with these settings: the search screen,
    /// empty, with the form filled from the settings.
    pub fn new(config: Config) -> (s: State)
        ensures
            s.screen is Search,
            s.config == config,
            s.search_query@.len() == 0,
            s.results@.len() == 0,
            s.selected == 0,
            !s.loading,
            s.status@ == "Initializing watcher..."@,
            fresh_form(s.settings, config),
            s.after_restart is None,
    {
        let settings = SettingsForm::from_config(&config);
        State {
            screen: Screen::Search,
            config,
            search_query: String::new(),
            results: Vec::new(),
            selected: 0,
            loading: false,
            status: owned("Initializing watcher..."),
            settings,
            after_restart: None,
        }
    }
}

/// Everything but the settings form is the same in `a` and `b`.
pub open spec fn same_but_form(a: State, b: State) -> bool {
    &&& a.screen == b.screen
    &&& a.config == b.config
    &&& a.search_query == b.search_query
    &&& a.results == b.results
    &&& a.selected == b.selected
    &&& a.loading == b.loading
    &&& a.status == b.status
    &&& a.after_restart == b.after_restart
}

/// Everything but the status line and the loading flag is the same.
pub open spec fn same_but_status(a: State, b: State) -> bool {
    &&& a.screen == b.screen
    &&& a.config == b.config
    &&& a.search_query == b.search_query
    &&& a.results == b.results
    &&& a.selected == b.selected
    &&& a.settings == b.settings
    &&& a.after_restart == b.after_restart
}

/// In the form, only the given text fields may differ, and the saved flag
/// and error are cleared.
pub open spec fn form_edited(a: SettingsForm, b: SettingsForm) -> bool {
    &&& b.hotkey == a.hotkey
    &&& b.saving == a.saving
    &&& !b.saved
    &&& b.error is None
    &&& b.recording_hotkey == a.recording_hotkey
    &&& b.pending_modifiers == a.pending_modifiers
}

/// The status line `<n> results`.
pub open spec fn results_status(n: nat) -> Seq<char> {
    decimal(n) + " results"@
}

/// The shortcut recorded from a key and the modifiers held with it.
pub open spec fn recorded_hotkey(key: KeyInput, mods: Seq<char>) -> Seq<char> {
    if mods.len() == 0 {
        key_label(key)
    } else {
        mods + "+"@ + key_label(key)
    }
}

/// A key that ends recording without a shortcut.
pub open spec fn cancels_recording(k: KeyInput) -> bool {
    k matches KeyInput::Named(NamedKey::Escape) || k matches KeyInput::Named(NamedKey::Backspace)
}

/// A shortcut recorded in the window splits at `+` into the names of the
/// modifiers held (in the order Ctrl, Alt, Shift, Super) followed by the
/// key's label, when that label holds no `+`.
pub proof fn law_recorded_hotkey_parts(k: KeyInput, m: ModifierState)
    requires
        forall|j: int| 0 <= j < key_label(k).len() ==> key_label(k)[j] != '+',
    ensures
        split_on(recorded_hotkey(k, join(modifier_names(m), "+"@)), '+') == modifier_names(
            m,
        ).push(key_label(k)),
{
    reveal_strlit("+");
    reveal_strlit("Ctrl");
    reveal_strlit("Alt");
    reveal_strlit("Shift");
    reveal_strlit("Super");
    assert("+"@ =~= seq!['+']);
    let names = modifier_names(m);
    let label = key_label(k);
    let parts = names.push(label);
    assert forall|i: int| 0 <= i < names.len() implies #[trigger] names[i].len() > 0 && (forall|
        j: int,
    | 0 <= j < names[i].len() ==> names[i][j] != '+') by {
        assert(names[i] == "Ctrl"@ || names[i] == "Alt"@ || names[i] == "Shift"@ || names[i]
            == "Super"@);
    }
    assert forall|i: int, j: int| 0 <= i < parts.len() && 0 <= j < parts[i].len() implies #[trigger] parts[i][j] != '+' by {
        if i < names.len() {
            assert(parts[i] == names[i]);
        }
    }
    if names.len() == 0 {
        assert(parts =~= seq![label]);
    } else {
        assert(parts.drop_last() =~= names);
        if names.len() == 1 {
            assert(join(names, "+"@) == names[0]);
        } else {
            assert(join(names, "+"@).len() >= 1);
        }
    }
    lemma_split_join(parts, '+');
}

/// The left-hand key codes of the modifiers held, in the order Ctrl, Alt,
/// Shift, Super.
pub open spec fn modifier_codes(m: ModifierState) -> Seq<u16> {
    let a = if m.control {
        seq![KEY_LEFTCTRL]
    } else {
        Seq::empty()
    };
    let b = if m.alt {
        a.push(KEY_LEFTALT)
    } else {
        a
    };
    let c = if m.shift {
        b.push(KEY_LEFTSHIFT)
    } else {
        b
    };
    if m.logo {
        c.push(KEY_LEFTMETA)
    } else {
        c
    }
}

proof fn lemma_name_reads_as(name: Seq<char>, lower: Seq<char>)
    requires
        name.len() > 0,
        all_ascii(name),
        trim(name) == name,
        ascii_lowercase(name) == lower,
    ensures
        part_name(name) == lower,
{
}

proof fn lemma_key_of_no_key(xs: Seq<Seq<char>>)
    requires
        forall|i: int| 0 <= i < xs.len() ==> key_for(part_name(#[trigger] xs[i])) is None,
    ensures
        key_of(xs) == KEY_SPACE,
    decreases xs.len(),
{
    if xs.len() > 0 {
        assert(key_for(part_name(xs[xs.len() - 1])) is None);
        assert forall|i: int| 0 <= i < xs.drop_last().len() implies key_for(
            part_name(#[trigger] xs.drop_last()[i]),
        ) is None by {
            assert(xs.drop_last()[i] == xs[i]);
        }
        lemma_key_of_no_key(xs.drop_last());
    }
}

proof fn lemma_push_modifier(xs: Seq<Seq<char>>, name: Seq<char>, code: u16)
    requires
        modifier_for(part_name(name)) == Some(code),
    ensures
        modifiers_of(xs.push(name)) == modifiers_of(xs).push(code),
{
    assert(xs.push(name).drop_last() =~= xs);
}

proof fn lemma_modifier_names_name_no_key()
    ensures
        key_for("ctrl"@) is None,
        key_for("alt"@) is None,
        key_for("shift"@) is None,
        key_for("super"@) is None,
{
    reveal_strlit("ctrl");
    reveal_strlit("alt");
    reveal_strlit("shift");
    reveal_strlit("super");
    reveal_strlit("space");
    reveal_strlit("enter");
    reveal_strlit("return");
    reveal_strlit("tab");
    reveal_strlit("escape");
    reveal_strlit("esc");
    reveal_strlit("backspace");
    reveal_strlit("delete");
    reveal_strlit("up");
    reveal_strlit("down");
    reveal_strlit("left");
    reveal_strlit("right");
    reveal_strlit("f1");
    reveal_strlit("f2");
    reveal_strlit("f3");
    reveal_strlit("f4");
    reveal_strlit("f5");
    reveal_strlit("f6");
    reveal_strlit("f7");
    reveal_strlit("f8");
    reveal_strlit("f9");
    reveal_strlit("f10");
    reveal_strlit("f11");
    reveal_strlit("f12");
    reveal_strlit("a");
    reveal_strlit("b");
    reveal_strlit("c");
    reveal_strlit("d");
    reveal_strlit("e");
    reveal_strlit("f");
    reveal_strlit("g");
    reveal_strlit("h");
    reveal_strlit("i");
    reveal_strlit("j");
    reveal_strlit("k");
    reveal_strlit("l");
    reveal_strlit("m");
    reveal_strlit("n");
    reveal_strlit("o");
    reveal_strlit("p");
    reveal_strlit("q");
    reveal_strlit("r");
    reveal_strlit("s");
    reveal_strlit("t");
    reveal_strlit("u");
    reveal_strlit("v");
    reveal_strlit("w");
    reveal_strlit("x");
    reveal_strlit("y");
    reveal_strlit("z");
    reveal_strlit("0");
    reveal_strlit("1");
    reveal_strlit("2");
    reveal_strlit("3");
    reveal_strlit("4");
    reveal_strlit("5");
    reveal_strlit("6");
    reveal_strlit("7");
    reveal_strlit("8");
    reveal_strlit("9");
    assert("ctrl"@.len() == 4);
    assert("alt"@.len() == 3);
    assert("shift"@.len() == 5);
    assert("super"@.len() == 5);
    assert("space"@.len() == 5);
    assert("enter"@.len() == 5);
    assert("return"@.len() == 6);
    assert("tab"@.len() == 3);
    assert("escape"@.len() == 6);
    assert("esc"@.len() == 3);
    assert("backspace"@.len() == 9);
    assert("delete"@.len() == 6);
    assert("up"@.len() == 2);
    assert("down"@.len() == 4);
    assert("left"@.len() == 4);
    assert("right"@.len() == 5);
    assert("f1"@.len() == 2);
    assert("f2"@.len() == 2);
    assert("f3"@.len() == 2);
    assert("f4"@.len() == 2);
    assert("f5"@.len() == 2);
    assert("f6"@.len() == 2);
    assert("f7"@.len() == 2);
    assert("f8"@.len() == 2);
    assert("f9"@.len() == 2);
    assert("f10"@.len() == 3);
    assert("f11"@.len() == 3);
    assert("f12"@.len() == 3);
    assert("a"@.len() == 1);
    assert("b"@.len() == 1);
    assert("c"@.len() == 1);
    assert("d"@.len() == 1);
    assert("e"@.len() == 1);
    assert("f"@.len() == 1);
    assert("g"@.len() == 1);
    assert("h"@.len() == 1);
    assert("i"@.len() == 1);
    assert("j"@.len() == 1);
    assert("k"@.len() == 1);
    assert("l"@.len() == 1);
    assert("m"@.len() == 1);
    assert("n"@.len() == 1);
    assert("o"@.len() == 1);
    assert("p"@.len() == 1);
    assert("q"@.len() == 1);
    assert("r"@.len() == 1);
    assert("s"@.len() == 1);
    assert("t"@.len() == 1);
    assert("u"@.len() == 1);
    assert("v"@.len() == 1);
    assert("w"@.len() == 1);
    assert("x"@.len() == 1);
    assert("y"@.len() == 1);
    assert("z"@.len() == 1);
    assert("0"@.len() == 1);
    assert("1"@.len() == 1);
    assert("2"@.len() == 1);
    assert("3"@.len() == 1);
    assert("4"@.len() == 1);
    assert("5"@.len() == 1);
    assert("6"@.len() == 1);
    assert("7"@.len() == 1);
    assert("8"@.len() == 1);
    assert("9"@.len() == 1);
    assert("ctrl"@[0] != "down"@[0]);
    assert("ctrl"@[0] != "left"@[0]);
    assert("alt"@[0] != "tab"@[0]);
    assert("alt"@[0] != "esc"@[0]);
    assert("alt"@[0] != "f10"@[0]);
    assert("alt"@[0] != "f11"@[0]);
    assert("alt"@[0] != "f12"@[0]);
    assert("shift"@[1] != "space"@[1]);
    assert("shift"@[0] != "enter"@[0]);
    assert("shift"@[0] != "right"@[0]);
    assert("super"@[1] != "space"@[1]);
    assert("super"@[0] != "enter"@[0]);
    assert("super"@[0] != "right"@[0]);
}

proof fn lemma_one_name(s: Seq<char>, lower: Seq<char>)
    requires
        s.len() > 0,
        all_ascii(s),
        forall|j: int| 0 <= j < s.len() ==> s[j] != '+',
        trim(s) == s,
        ascii_lowercase(s) == lower,
    ensures
        hotkey_spec(s) == (
            match modifier_for(lower) {
                Some(m) => seq![m],
                None => Seq::<u16>::empty(),
            },
            match key_for(lower) {
                Some(c) => c,
                None => KEY_SPACE,
            },
        ),
{
    lemma_split_no_sep(s, '+');
    let parts = seq![s];
    assert(parts.drop_last() =~= Seq::<Seq<char>>::empty());
    assert(parts.last() == s);
    assert(part_name(s) == lower);
    assert(key_of(Seq::<Seq<char>>::empty()) == KEY_SPACE);
    assert(modifiers_of(Seq::<Seq<char>>::empty()) =~= Seq::<u16>::empty());
    assert(split_on(s, '+') == parts);
    match modifier_for(lower) {
        Some(m) => {
            assert(Seq::<u16>::empty().push(m) =~= seq![m]);
        },
        None => {},
    }
}

/// Every key name a shortcut may hold, written in lower case, names its
/// key and no modifier: Space, Enter (`enter`, `return`), Tab, Esc
/// (`escape`, `esc`), Backspace, Delete, the four arrows, F1 to F12, the
/// letters and the digits, each with its Linux input code.
pub proof fn law_key_name_table()
    ensures
        key_for("space"@) == Some(KEY_SPACE),
        modifier_for("space"@) is None,
        key_for("enter"@) == Some(KEY_ENTER),
        modifier_for("enter"@) is None,
        key_for("return"@) == Some(KEY_ENTER),
        modifier_for("return"@) is None,
        key_for("tab"@) == Some(KEY_TAB),
        modifier_for("tab"@) is None,
        key_for("escape"@) == Some(KEY_ESC),
        modifier_for("escape"@) is None,
        key_for("esc"@) == Some(KEY_ESC),
        modifier_for("esc"@) is None,
        key_for("backspace"@) == Some(KEY_BACKSPACE),
        modifier_for("backspace"@) is None,
        key_for("delete"@) == Some(KEY_DELETE),
        modifier_for("delete"@) is None,
        key_for("up"@) == Some(KEY_UP),
        modifier_for("up"@) is None,
        key_for("down"@) == Some(KEY_DOWN),
        modifier_for("down"@) is None,
        key_for("left"@) == Some(KEY_LEFT),
        modifier_for("left"@) is None,
        key_for("right"@) == Some(KEY_RIGHT),
        modifier_for("right"@) is None,
        key_for("f1"@) == Some(KEY_F1),
        modifier_for("f1"@) is None,
        key_for("f2"@) == Some(KEY_F2),
        modifier_for("f2"@) is None,
        key_for("f3"@) == Some(KEY_F3),
        modifier_for("f3"@) is None,
        key_for("f4"@) == Some(KEY_F4),
        modifier_for("f4"@) is None,
        key_for("f5"@) == Some(KEY_F5),
        modifier_for("f5"@) is None,
        key_for("f6"@) == Some(KEY_F6),
        modifier_for("f6"@) is None,
        key_for("f7"@) == Some(KEY_F7),
        modifier_for("f7"@) is None,
        key_for("f8"@) == Some(KEY_F8),
        modifier_for("f8"@) is None,
        key_for("f9"@) == Some(KEY_F9),
        modifier_for("f9"@) is None,
        key_for("f10"@) == Some(KEY_F10),
        modifier_for("f10"@) is None,
        key_for("f11"@) == Some(KEY_F11),
        modifier_for("f11"@) is None,
        key_for("f12"@) == Some(KEY_F12),
        modifier_for("f12"@) is None,
        key_for("a"@) == Some(KEY_A),
        modifier_for("a"@) is None,
        key_for("b"@) == Some(KEY_B),
        modifier_for("b"@) is None,
        key_for("c"@) == Some(KEY_C),
        modifier_for("c"@) is None,
        key_for("d"@) == Some(KEY_D),
        modifier_for("d"@) is None,
        key_for("e"@) == Some(KEY_E),
        modifier_for("e"@) is None,
        key_for("f"@) == Some(KEY_F),
        modifier_for("f"@) is None,
        key_for("g"@) == Some(KEY_G),
        modifier_for("g"@) is None,
        key_for("h"@) == Some(KEY_H),
        modifier_for("h"@) is None,
        key_for("i"@) == Some(KEY_I),
        modifier_for("i"@) is None,
        key_for("j"@) == Some(KEY_J),
        modifier_for("j"@) is None,
        key_for("k"@) == Some(KEY_K),
        modifier_for("k"@) is None,
        key_for("l"@) == Some(KEY_L),
        modifier_for("l"@) is None,
        key_for("m"@) == Some(KEY_M),
        modifier_for("m"@) is None,
        key_for("n"@) == Some(KEY_N),
        modifier_for("n"@) is None,
        key_for("o"@) == Some(KEY_O),
        modifier_for("o"@) is None,
        key_for("p"@) == Some(KEY_P),
        modifier_for("p"@) is None,
        key_for("q"@) == Some(KEY_Q),
        modifier_for("q"@) is None,
        key_for("r"@) == Some(KEY_R),
        modifier_for("r"@) is None,
        key_for("s"@) == Some(KEY_S),
        modifier_for("s"@) is None,
        key_for("t"@) == Some(KEY_T),
        modifier_for("t"@) is None,
        key_for("u"@) == Some(KEY_U),
        modifier_for("u"@) is None,
        key_for("v"@) == Some(KEY_V),
        modifier_for("v"@) is None,
        key_for("w"@) == Some(KEY_W),
        modifier_for("w"@) is None,
        key_for("x"@) == Some(KEY_X),
        modifier_for("x"@) is None,
        key_for("y"@) == Some(KEY_Y),
        modifier_for("y"@) is None,
        key_for("z"@) == Some(KEY_Z),
        modifier_for("z"@) is None,
        key_for("0"@) == Some(KEY_0),
        modifier_for("0"@) is None,
        key_for("1"@) == Some(KEY_1),
        modifier_for("1"@) is None,
        key_for("2"@) == Some(KEY_2),
        modifier_for("2"@) is None,
        key_for("3"@) == Some(KEY_3),
        modifier_for("3"@) is None,
        key_for("4"@) == Some(KEY_4),
        modifier_for("4"@) is None,
        key_for("5"@) == Some(KEY_5),
        modifier_for("5"@) is None,
        key_for("6"@) == Some(KEY_6),
        modifier_for("6"@) is None,
        key_for("7"@) == Some(KEY_7),
        modifier_for("7"@) is None,
        key_for("8"@) == Some(KEY_8),
        modifier_for("8"@) is None,
        key_for("9"@) == Some(KEY_9),
        modifier_for("9"@) is None,
{
    reveal_strlit("alt");
    reveal_strlit("backspace");
    reveal_strlit("cmd");
    reveal_strlit("control");
    reveal_strlit("ctrl");
    reveal_strlit("delete");
    reveal_strlit("down");
    reveal_strlit("enter");
    reveal_strlit("esc");
    reveal_strlit("escape");
    reveal_strlit("f1");
    reveal_strlit("f10");
    reveal_strlit("f11");
    reveal_strlit("f12");
    reveal_strlit("f2");
    reveal_strlit("f3");
    reveal_strlit("f4");
    reveal_strlit("f5");
    reveal_strlit("f6");
    reveal_strlit("f7");
    reveal_strlit("f8");
    reveal_strlit("f9");
    reveal_strlit("left");
    reveal_strlit("meta");
    reveal_strlit("option");
    reveal_strlit("return");
    reveal_strlit("right");
    reveal_strlit("shift");
    reveal_strlit("space");
    reveal_strlit("super");
    reveal_strlit("tab");
    reveal_strlit("up");
    reveal_strlit("win");
    assert("alt"@.len() == 3);
    assert("backspace"@.len() == 9);
    assert("cmd"@.len() == 3);
    assert("control"@.len() == 7);
    assert("ctrl"@.len() == 4);
    assert("delete"@.len() == 6);
    assert("down"@.len() == 4);
    assert("enter"@.len() == 5);
    assert("esc"@.len() == 3);
    assert("escape"@.len() == 6);
    assert("f1"@.len() == 2);
    assert("f10"@.len() == 3);
    assert("f11"@.len() == 3);
    assert("f12"@.len() == 3);
    assert("f2"@.len() == 2);
    assert("f3"@.len() == 2);
    assert("f4"@.len() == 2);
    assert("f5"@.len() == 2);
    assert("f6"@.len() == 2);
    assert("f7"@.len() == 2);
    assert("f8"@.len() == 2);
    assert("f9"@.len() == 2);
    assert("left"@.len() == 4);
    assert("meta"@.len() == 4);
    assert("option"@.len() == 6);
    assert("return"@.len() == 6);
    assert("right"@.len() == 5);
    assert("shift"@.len() == 5);
    assert("space"@.len() == 5);
    assert("super"@.len() == 5);
    assert("tab"@.len() == 3);
    assert("up"@.len() == 2);
    assert("win"@.len() == 3);
    assert("space"@[1] != "shift"@[1]);
    assert("space"@[1] != "super"@[1]);
    assert("enter"@[0] != "space"@[0]);
    assert("enter"@[0] != "shift"@[0]);
    assert("enter"@[0] != "super"@[0]);
    assert("return"@[0] != "option"@[0]);
    assert("tab"@[0] != "alt"@[0]);
    assert("tab"@[0] != "cmd"@[0]);
    assert("tab"@[0] != "win"@[0]);
    assert("escape"@[0] != "return"@[0]);
    assert("escape"@[0] != "option"@[0]);
    assert("esc"@[0] != "tab"@[0]);
    assert("esc"@[0] != "alt"@[0]);
    assert("esc"@[0] != "cmd"@[0]);
    assert("esc"@[0] != "win"@[0]);
    assert("delete"@[0] != "return"@[0]);
    assert("delete"@[0] != "escape"@[0]);
    assert("delete"@[0] != "option"@[0]);
    assert("down"@[0] != "ctrl"@[0]);
    assert("down"@[0] != "meta"@[0]);
    assert("left"@[0] != "down"@[0]);
    assert("left"@[0] != "ctrl"@[0]);
    assert("left"@[0] != "meta"@[0]);
    assert("right"@[0] != "space"@[0]);
    assert("right"@[0] != "enter"@[0]);
    assert("right"@[0] != "shift"@[0]);
    assert("right"@[0] != "super"@[0]);
    assert("f1"@[0] != "up"@[0]);
    assert("f2"@[0] != "up"@[0]);
    assert("f2"@[1] != "f1"@[1]);
    assert("f3"@[0] != "up"@[0]);
    assert("f3"@[1] != "f1"@[1]);
    assert("f3"@[1] != "f2"@[1]);
    assert("f4"@[0] != "up"@[0]);
    assert("f4"@[1] != "f1"@[1]);
    assert("f4"@[1] != "f2"@[1]);
    assert("f4"@[1] != "f3"@[1]);
    assert("f5"@[0] != "up"@[0]);
    assert("f5"@[1] != "f1"@[1]);
    assert("f5"@[1] != "f2"@[1]);
    assert("f5"@[1] != "f3"@[1]);
    assert("f5"@[1] != "f4"@[1]);
    assert("f6"@[0] != "up"@[0]);
    assert("f6"@[1] != "f1"@[1]);
    assert("f6"@[1] != "f2"@[1]);
    assert("f6"@[1] != "f3"@[1]);
    assert("f6"@[1] != "f4"@[1]);
    assert("f6"@[1] != "f5"@[1]);
    assert("f7"@[0] != "up"@[0]);
    assert("f7"@[1] != "f1"@[1]);
    assert("f7"@[1] != "f2"@[1]);
    assert("f7"@[1] != "f3"@[1]);
    assert("f7"@[1] != "f4"@[1]);
    assert("f7"@[1] != "f5"@[1]);
    assert("f7"@[1] != "f6"@[1]);
    assert("f8"@[0] != "up"@[0]);
    assert("f8"@[1] != "f1"@[1]);
    assert("f8"@[1] != "f2"@[1]);
    assert("f8"@[1] != "f3"@[1]);
    assert("f8"@[1] != "f4"@[1]);
    assert("f8"@[1] != "f5"@[1]);
    assert("f8"@[1] != "f6"@[1]);
    assert("f8"@[1] != "f7"@[1]);
    assert("f9"@[0] != "up"@[0]);
    assert("f9"@[1] != "f1"@[1]);
    assert("f9"@[1] != "f2"@[1]);
    assert("f9"@[1] != "f3"@[1]);
    assert("f9"@[1] != "f4"@[1]);
    assert("f9"@[1] != "f5"@[1]);
    assert("f9"@[1] != "f6"@[1]);
    assert("f9"@[1] != "f7"@[1]);
    assert("f9"@[1] != "f8"@[1]);
    assert("f10"@[0] != "tab"@[0]);
    assert("f10"@[0] != "esc"@[0]);
    assert("f10"@[0] != "alt"@[0]);
    assert("f10"@[0] != "cmd"@[0]);
    assert("f10"@[0] != "win"@[0]);
    assert("f11"@[0] != "tab"@[0]);
    assert("f11"@[0] != "esc"@[0]);
    assert("f11"@[2] != "f10"@[2]);
    assert("f11"@[0] != "alt"@[0]);
    assert("f11"@[0] != "cmd"@[0]);
    assert("f11"@[0] != "win"@[0]);
    assert("f12"@[0] != "tab"@[0]);
    assert("f12"@[0] != "esc"@[0]);
    assert("f12"@[2] != "f10"@[2]);
    assert("f12"@[2] != "f11"@[2]);
    assert("f12"@[0] != "alt"@[0]);
    assert("f12"@[0] != "cmd"@[0]);
    assert("f12"@[0] != "win"@[0]);
    reveal_strlit("a");
    assert("a"@ =~= seq!['a']);
    lemma_key_for_single('a');
    reveal_strlit("b");
    assert("b"@ =~= seq!['b']);
    lemma_key_for_single('b');
    reveal_strlit("c");
    assert("c"@ =~= seq!['c']);
    lemma_key_for_single('c');
    reveal_strlit("d");
    assert("d"@ =~= seq!['d']);
    lemma_key_for_single('d');
    reveal_strlit("e");
    assert("e"@ =~= seq!['e']);
    lemma_key_for_single('e');
    reveal_strlit("f");
    assert("f"@ =~= seq!['f']);
    lemma_key_for_single('f');
    reveal_strlit("g");
    assert("g"@ =~= seq!['g']);
    lemma_key_for_single('g');
    reveal_strlit("h");
    assert("h"@ =~= seq!['h']);
    lemma_key_for_single('h');
    reveal_strlit("i");
    assert("i"@ =~= seq!['i']);
    lemma_key_for_single('i');
    reveal_strlit("j");
    assert("j"@ =~= seq!['j']);
    lemma_key_for_single('j');
    reveal_strlit("k");
    assert("k"@ =~= seq!['k']);
    lemma_key_for_single('k');
    reveal_strlit("l");
    assert("l"@ =~= seq!['l']);
    lemma_key_for_single('l');
    reveal_strlit("m");
    assert("m"@ =~= seq!['m']);
    lemma_key_for_single('m');
    reveal_strlit("n");
    assert("n"@ =~= seq!['n']);
    lemma_key_for_single('n');
    reveal_strlit("o");
    assert("o"@ =~= seq!['o']);
    lemma_key_for_single('o');
    reveal_strlit("p");
    assert("p"@ =~= seq!['p']);
    lemma_key_for_single('p');
    reveal_strlit("q");
    assert("q"@ =~= seq!['q']);
    lemma_key_for_single('q');
    reveal_strlit("r");
    assert("r"@ =~= seq!['r']);
    lemma_key_for_single('r');
    reveal_strlit("s");
    assert("s"@ =~= seq!['s']);
    lemma_key_for_single('s');
    reveal_strlit("t");
    assert("t"@ =~= seq!['t']);
    lemma_key_for_single('t');
    reveal_strlit("u");
    assert("u"@ =~= seq!['u']);
    lemma_key_for_single('u');
    reveal_strlit("v");
    assert("v"@ =~= seq!['v']);
    lemma_key_for_single('v');
    reveal_strlit("w");
    assert("w"@ =~= seq!['w']);
    lemma_key_for_single('w');
    reveal_strlit("x");
    assert("x"@ =~= seq!['x']);
    lemma_key_for_single('x');
    reveal_strlit("y");
    assert("y"@ =~= seq!['y']);
    lemma_key_for_single('y');
    reveal_strlit("z");
    assert("z"@ =~= seq!['z']);
    lemma_key_for_single('z');
    reveal_strlit("0");
    assert("0"@ =~= seq!['0']);
    lemma_key_for_single('0');
    reveal_strlit("1");
    assert("1"@ =~= seq!['1']);
    lemma_key_for_single('1');
    reveal_strlit("2");
    assert("2"@ =~= seq!['2']);
    lemma_key_for_single('2');
    reveal_strlit("3");
    assert("3"@ =~= seq!['3']);
    lemma_key_for_single('3');
    reveal_strlit("4");
    assert("4"@ =~= seq!['4']);
    lemma_key_for_single('4');
    reveal_strlit("5");
    assert("5"@ =~= seq!['5']);
    lemma_key_for_single('5');
    reveal_strlit("6");
    assert("6"@ =~= seq!['6']);
    lemma_key_for_single('6');
    reveal_strlit("7");
    assert("7"@ =~= seq!['7']);
    lemma_key_for_single('7');
    reveal_strlit("8");
    assert("8"@ =~= seq!['8']);
    lemma_key_for_single('8');
    reveal_strlit("9");
    assert("9"@ =~= seq!['9']);
    lemma_key_for_single('9');
}

/// Every modifier name a shortcut may hold, written in lower case, names
/// the left key of its modifier and no key: `ctrl` and `control` Ctrl,
/// `alt` and `option` Alt, `shift` Shift, `super`, `meta`, `cmd` and `win`
/// Super.
pub proof fn law_modifier_name_table()
    ensures
        modifier_for("ctrl"@) == Some(KEY_LEFTCTRL),
        key_for("ctrl"@) is None,
        modifier_for("control"@) == Some(KEY_LEFTCTRL),
        key_for("control"@) is None,
        modifier_for("alt"@) == Some(KEY_LEFTALT),
        key_for("alt"@) is None,
        modifier_for("option"@) == Some(KEY_LEFTALT),
        key_for("option"@) is None,
        modifier_for("shift"@) == Some(KEY_LEFTSHIFT),
        key_for("shift"@) is None,
        modifier_for("super"@) == Some(KEY_LEFTMETA),
        key_for("super"@) is None,
        modifier_for("meta"@) == Some(KEY_LEFTMETA),
        key_for("meta"@) is None,
        modifier_for("cmd"@) == Some(KEY_LEFTMETA),
        key_for("cmd"@) is None,
        modifier_for("win"@) == Some(KEY_LEFTMETA),
        key_for("win"@) is None,
{
    reveal_strlit("a");
    assert("a"@.len() == 1);
    reveal_strlit("b");
    assert("b"@.len() == 1);
    reveal_strlit("c");
    assert("c"@.len() == 1);
    reveal_strlit("d");
    assert("d"@.len() == 1);
    reveal_strlit("e");
    assert("e"@.len() == 1);
    reveal_strlit("f");
    assert("f"@.len() == 1);
    reveal_strlit("g");
    assert("g"@.len() == 1);
    reveal_strlit("h");
    assert("h"@.len() == 1);
    reveal_strlit("i");
    assert("i"@.len() == 1);
    reveal_strlit("j");
    assert("j"@.len() == 1);
    reveal_strlit("k");
    assert("k"@.len() == 1);
    reveal_strlit("l");
    assert("l"@.len() == 1);
    reveal_strlit("m");
    assert("m"@.len() == 1);
    reveal_strlit("n");
    assert("n"@.len() == 1);
    reveal_strlit("o");
    assert("o"@.len() == 1);
    reveal_strlit("p");
    assert("p"@.len() == 1);
    reveal_strlit("q");
    assert("q"@.len() == 1);
    reveal_strlit("r");
    assert("r"@.len() == 1);
    reveal_strlit("s");
    assert("s"@.len() == 1);
    reveal_strlit("t");
    assert("t"@.len() == 1);
    reveal_strlit("u");
    assert("u"@.len() == 1);
    reveal_strlit("v");
    assert("v"@.len() == 1);
    reveal_strlit("w");
    assert("w"@.len() == 1);
    reveal_strlit("x");
    assert("x"@.len() == 1);
    reveal_strlit("y");
    assert("y"@.len() == 1);
    reveal_strlit("z");
    assert("z"@.len() == 1);
    reveal_strlit("0");
    assert("0"@.len() == 1);
    reveal_strlit("1");
    assert("1"@.len() == 1);
    reveal_strlit("2");
    assert("2"@.len() == 1);
    reveal_strlit("3");
    assert("3"@.len() == 1);
    reveal_strlit("4");
    assert("4"@.len() == 1);
    reveal_strlit("5");
    assert("5"@.len() == 1);
    reveal_strlit("6");
    assert("6"@.len() == 1);
    reveal_strlit("7");
    assert("7"@.len() == 1);
    reveal_strlit("8");
    assert("8"@.len() == 1);
    reveal_strlit("9");
    assert("9"@.len() == 1);
    reveal_strlit("alt");
    reveal_strlit("backspace");
    reveal_strlit("cmd");
    reveal_strlit("control");
    reveal_strlit("ctrl");
    reveal_strlit("delete");
    reveal_strlit("down");
    reveal_strlit("enter");
    reveal_strlit("esc");
    reveal_strlit("escape");
    reveal_strlit("f1");
    reveal_strlit("f10");
    reveal_strlit("f11");
    reveal_strlit("f12");
    reveal_strlit("f2");
    reveal_strlit("f3");
    reveal_strlit("f4");
    reveal_strlit("f5");
    reveal_strlit("f6");
    reveal_strlit("f7");
    reveal_strlit("f8");
    reveal_strlit("f9");
    reveal_strlit("left");
    reveal_strlit("meta");
    reveal_strlit("option");
    reveal_strlit("return");
    reveal_strlit("right");
    reveal_strlit("shift");
    reveal_strlit("space");
    reveal_strlit("super");
    reveal_strlit("tab");
    reveal_strlit("up");
    reveal_strlit("win");
    assert("alt"@.len() == 3);
    assert("backspace"@.len() == 9);
    assert("cmd"@.len() == 3);
    assert("control"@.len() == 7);
    assert("ctrl"@.len() == 4);
    assert("delete"@.len() == 6);
    assert("down"@.len() == 4);
    assert("enter"@.len() == 5);
    assert("esc"@.len() == 3);
    assert("escape"@.len() == 6);
    assert("f1"@.len() == 2);
    assert("f10"@.len() == 3);
    assert("f11"@.len() == 3);
    assert("f12"@.len() == 3);
    assert("f2"@.len() == 2);
    assert("f3"@.len() == 2);
    assert("f4"@.len() == 2);
    assert("f5"@.len() == 2);
    assert("f6"@.len() == 2);
    assert("f7"@.len() == 2);
    assert("f8"@.len() == 2);
    assert("f9"@.len() == 2);
    assert("left"@.len() == 4);
    assert("meta"@.len() == 4);
    assert("option"@.len() == 6);
    assert("return"@.len() == 6);
    assert("right"@.len() == 5);
    assert("shift"@.len() == 5);
    assert("space"@.len() == 5);
    assert("super"@.len() == 5);
    assert("tab"@.len() == 3);
    assert("up"@.len() == 2);
    assert("win"@.len() == 3);
    assert("ctrl"@[0] != "down"@[0]);
    assert("ctrl"@[0] != "left"@[0]);
    assert("alt"@[0] != "tab"@[0]);
    assert("alt"@[0] != "esc"@[0]);
    assert("alt"@[0] != "f10"@[0]);
    assert("alt"@[0] != "f11"@[0]);
    assert("alt"@[0] != "f12"@[0]);
    assert("option"@[0] != "return"@[0]);
    assert("option"@[0] != "escape"@[0]);
    assert("option"@[0] != "delete"@[0]);
    assert("shift"@[1] != "space"@[1]);
    assert("shift"@[0] != "enter"@[0]);
    assert("shift"@[0] != "right"@[0]);
    assert("super"@[1] != "shift"@[1]);
    assert("super"@[1] != "space"@[1]);
    assert("super"@[0] != "enter"@[0]);
    assert("super"@[0] != "right"@[0]);
    assert("meta"@[0] != "ctrl"@[0]);
    assert("meta"@[0] != "down"@[0]);
    assert("meta"@[0] != "left"@[0]);
    assert("cmd"@[0] != "alt"@[0]);
    assert("cmd"@[0] != "tab"@[0]);
    assert("cmd"@[0] != "esc"@[0]);
    assert("cmd"@[0] != "f10"@[0]);
    assert("cmd"@[0] != "f11"@[0]);
    assert("cmd"@[0] != "f12"@[0]);
    assert("win"@[0] != "alt"@[0]);
    assert("win"@[0] != "cmd"@[0]);
    assert("win"@[0] != "tab"@[0]);
    assert("win"@[0] != "esc"@[0]);
    assert("win"@[0] != "f10"@[0]);
    assert("win"@[0] != "f11"@[0]);
    assert("win"@[0] != "f12"@[0]);
}

/// A shortcut that is just a named key, written with a capital, is read as
/// that key with no modifier: `Escape` and `Esc` as Esc, `Return` and
/// `Enter` as Enter, `F5` as F5, and so on for every key name.
pub proof fn law_named_keys_read()
    ensures
        hotkey_spec("Space"@) == (Seq::<u16>::empty(), KEY_SPACE),
        hotkey_spec("Enter"@) == (Seq::<u16>::empty(), KEY_ENTER),
        hotkey_spec("Return"@) == (Seq::<u16>::empty(), KEY_ENTER),
        hotkey_spec("Tab"@) == (Seq::<u16>::empty(), KEY_TAB),
        hotkey_spec("Escape"@) == (Seq::<u16>::empty(), KEY_ESC),
        hotkey_spec("Esc"@) == (Seq::<u16>::empty(), KEY_ESC),
        hotkey_spec("Backspace"@) == (Seq::<u16>::empty(), KEY_BACKSPACE),
        hotkey_spec("Delete"@) == (Seq::<u16>::empty(), KEY_DELETE),
        hotkey_spec("Up"@) == (Seq::<u16>::empty(), KEY_UP),
        hotkey_spec("Down"@) == (Seq::<u16>::empty(), KEY_DOWN),
        hotkey_spec("Left"@) == (Seq::<u16>::empty(), KEY_LEFT),
        hotkey_spec("Right"@) == (Seq::<u16>::empty(), KEY_RIGHT),
        hotkey_spec("F1"@) == (Seq::<u16>::empty(), KEY_F1),
        hotkey_spec("F2"@) == (Seq::<u16>::empty(), KEY_F2),
        hotkey_spec("F3"@) == (Seq::<u16>::empty(), KEY_F3),
        hotkey_spec("F4"@) == (Seq::<u16>::empty(), KEY_F4),
        hotkey_spec("F5"@) == (Seq::<u16>::empty(), KEY_F5),
        hotkey_spec("F6"@) == (Seq::<u16>::empty(), KEY_F6),
        hotkey_spec("F7"@) == (Seq::<u16>::empty(), KEY_F7),
        hotkey_spec("F8"@) == (Seq::<u16>::empty(), KEY_F8),
        hotkey_spec("F9"@) == (Seq::<u16>::empty(), KEY_F9),
        hotkey_spec("F10"@) == (Seq::<u16>::empty(), KEY_F10),
        hotkey_spec("F11"@) == (Seq::<u16>::empty(), KEY_F11),
        hotkey_spec("F12"@) == (Seq::<u16>::empty(), KEY_F12),
{
    law_key_name_table();
    law_modifier_name_table();
    reveal_strlit("Space");
    reveal_strlit("space");
    assert(ascii_lowercase("Space"@) =~= "space"@);
    lemma_trim_fixed("Space"@);
    lemma_one_name("Space"@, "space"@);
    reveal_strlit("Enter");
    reveal_strlit("enter");
    assert(ascii_lowercase("Enter"@) =~= "enter"@);
    lemma_trim_fixed("Enter"@);
    lemma_one_name("Enter"@, "enter"@);
    reveal_strlit("Return");
    reveal_strlit("return");
    assert(ascii_lowercase("Return"@) =~= "return"@);
    lemma_trim_fixed("Return"@);
    lemma_one_name("Return"@, "return"@);
    reveal_strlit("Tab");
    reveal_strlit("tab");
    assert(ascii_lowercase("Tab"@) =~= "tab"@);
    lemma_trim_fixed("Tab"@);
    lemma_one_name("Tab"@, "tab"@);
    reveal_strlit("Escape");
    reveal_strlit("escape");
    assert(ascii_lowercase("Escape"@) =~= "escape"@);
    lemma_trim_fixed("Escape"@);
    lemma_one_name("Escape"@, "escape"@);
    reveal_strlit("Esc");
    reveal_strlit("esc");
    assert(ascii_lowercase("Esc"@) =~= "esc"@);
    lemma_trim_fixed("Esc"@);
    lemma_one_name("Esc"@, "esc"@);
    reveal_strlit("Backspace");
    reveal_strlit("backspace");
    assert(ascii_lowercase("Backspace"@) =~= "backspace"@);
    lemma_trim_fixed("Backspace"@);
    lemma_one_name("Backspace"@, "backspace"@);
    reveal_strlit("Delete");
    reveal_strlit("delete");
    assert(ascii_lowercase("Delete"@) =~= "delete"@);
    lemma_trim_fixed("Delete"@);
    lemma_one_name("Delete"@, "delete"@);
    reveal_strlit("Up");
    reveal_strlit("up");
    assert(ascii_lowercase("Up"@) =~= "up"@);
    lemma_trim_fixed("Up"@);
    lemma_one_name("Up"@, "up"@);
    reveal_strlit("Down");
    reveal_strlit("down");
    assert(ascii_lowercase("Down"@) =~= "down"@);
    lemma_trim_fixed("Down"@);
    lemma_one_name("Down"@, "down"@);
    reveal_strlit("Left");
    reveal_strlit("left");
    assert(ascii_lowercase("Left"@) =~= "left"@);
    lemma_trim_fixed("Left"@);
    lemma_one_name("Left"@, "left"@);
    reveal_strlit("Right");
    reveal_strlit("right");
    assert(ascii_lowercase("Right"@) =~= "right"@);
    lemma_trim_fixed("Right"@);
    lemma_one_name("Right"@, "right"@);
    reveal_strlit("F1");
    reveal_strlit("f1");
    assert(ascii_lowercase("F1"@) =~= "f1"@);
    lemma_trim_fixed("F1"@);
    lemma_one_name("F1"@, "f1"@);
    reveal_strlit("F2");
    reveal_strlit("f2");
    assert(ascii_lowercase("F2"@) =~= "f2"@);
    lemma_trim_fixed("F2"@);
    lemma_one_name("F2"@, "f2"@);
    reveal_strlit("F3");
    reveal_strlit("f3");
    assert(ascii_lowercase("F3"@) =~= "f3"@);
    lemma_trim_fixed("F3"@);
    lemma_one_name("F3"@, "f3"@);
    reveal_strlit("F4");
    reveal_strlit("f4");
    assert(ascii_lowercase("F4"@) =~= "f4"@);
    lemma_trim_fixed("F4"@);
    lemma_one_name("F4"@, "f4"@);
    reveal_strlit("F5");
    reveal_strlit("f5");
    assert(ascii_lowercase("F5"@) =~= "f5"@);
    lemma_trim_fixed("F5"@);
    lemma_one_name("F5"@, "f5"@);
    reveal_strlit("F6");
    reveal_strlit("f6");
    assert(ascii_lowercase("F6"@) =~= "f6"@);
    lemma_trim_fixed("F6"@);
    lemma_one_name("F6"@, "f6"@);
    reveal_strlit("F7");
    reveal_strlit("f7");
    assert(ascii_lowercase("F7"@) =~= "f7"@);
    lemma_trim_fixed("F7"@);
    lemma_one_name("F7"@, "f7"@);
    reveal_strlit("F8");
    reveal_strlit("f8");
    assert(ascii_lowercase("F8"@) =~= "f8"@);
    lemma_trim_fixed("F8"@);
    lemma_one_name("F8"@, "f8"@);
    reveal_strlit("F9");
    reveal_strlit("f9");
    assert(ascii_lowercase("F9"@) =~= "f9"@);
    lemma_trim_fixed("F9"@);
    lemma_one_name("F9"@, "f9"@);
    reveal_strlit("F10");
    reveal_strlit("f10");
    assert(ascii_lowercase("F10"@) =~= "f10"@);
    lemma_trim_fixed("F10"@);
    lemma_one_name("F10"@, "f10"@);
    reveal_strlit("F11");
    reveal_strlit("f11");
    assert(ascii_lowercase("F11"@) =~= "f11"@);
    lemma_trim_fixed("F11"@);
    lemma_one_name("F11"@, "f11"@);
    reveal_strlit("F12");
    reveal_strlit("f12");
    assert(ascii_lowercase("F12"@) =~= "f12"@);
    lemma_trim_fixed("F12"@);
    lemma_one_name("F12"@, "f12"@);
}

/// A shortcut that is just a letter, written in upper case, is read as
/// that letter's key with no modifier.
pub proof fn law_letter_keys_read()
    ensures
        hotkey_spec("A"@) == (Seq::<u16>::empty(), KEY_A),
        hotkey_spec("B"@) == (Seq::<u16>::empty(), KEY_B),
        hotkey_spec("C"@) == (Seq::<u16>::empty(), KEY_C),
        hotkey_spec("D"@) == (Seq::<u16>::empty(), KEY_D),
        hotkey_spec("E"@) == (Seq::<u16>::empty(), KEY_E),
        hotkey_spec("F"@) == (Seq::<u16>::empty(), KEY_F),
        hotkey_spec("G"@) == (Seq::<u16>::empty(), KEY_G),
        hotkey_spec("H"@) == (Seq::<u16>::empty(), KEY_H),
        hotkey_spec("I"@) == (Seq::<u16>::empty(), KEY_I),
        hotkey_spec("J"@) == (Seq::<u16>::empty(), KEY_J),
        hotkey_spec("K"@) == (Seq::<u16>::empty(), KEY_K),
        hotkey_spec("L"@) == (Seq::<u16>::empty(), KEY_L),
        hotkey_spec("M"@) == (Seq::<u16>::empty(), KEY_M),
        hotkey_spec("N"@) == (Seq::<u16>::empty(), KEY_N),
        hotkey_spec("O"@) == (Seq::<u16>::empty(), KEY_O),
        hotkey_spec("P"@) == (Seq::<u16>::empty(), KEY_P),
        hotkey_spec("Q"@) == (Seq::<u16>::empty(), KEY_Q),
        hotkey_spec("R"@) == (Seq::<u16>::empty(), KEY_R),
        hotkey_spec("S"@) == (Seq::<u16>::empty(), KEY_S),
        hotkey_spec("T"@) == (Seq::<u16>::empty(), KEY_T),
        hotkey_spec("U"@) == (Seq::<u16>::empty(), KEY_U),
        hotkey_spec("V"@) == (Seq::<u16>::empty(), KEY_V),
        hotkey_spec("W"@) == (Seq::<u16>::empty(), KEY_W),
        hotkey_spec("X"@) == (Seq::<u16>::empty(), KEY_X),
        hotkey_spec("Y"@) == (Seq::<u16>::empty(), KEY_Y),
        hotkey_spec("Z"@) == (Seq::<u16>::empty(), KEY_Z),
{
    law_key_name_table();
    law_modifier_name_table();
    reveal_strlit("A");
    reveal_strlit("a");
    assert(ascii_lowercase("A"@) =~= "a"@);
    lemma_trim_fixed("A"@);
    lemma_one_name("A"@, "a"@);
    reveal_strlit("B");
    reveal_strlit("b");
    assert(ascii_lowercase("B"@) =~= "b"@);
    lemma_trim_fixed("B"@);
    lemma_one_name("B"@, "b"@);
    reveal_strlit("C");
    reveal_strlit("c");
    assert(ascii_lowercase("C"@) =~= "c"@);
    lemma_trim_fixed("C"@);
    lemma_one_name("C"@, "c"@);
    reveal_strlit("D");
    reveal_strlit("d");
    assert(ascii_lowercase("D"@) =~= "d"@);
    lemma_trim_fixed("D"@);
    lemma_one_name("D"@, "d"@);
    reveal_strlit("E");
    reveal_strlit("e");
    assert(ascii_lowercase("E"@) =~= "e"@);
    lemma_trim_fixed("E"@);
    lemma_one_name("E"@, "e"@);
    reveal_strlit("F");
    reveal_strlit("f");
    assert(ascii_lowercase("F"@) =~= "f"@);
    lemma_trim_fixed("F"@);
    lemma_one_name("F"@, "f"@);
    reveal_strlit("G");
    reveal_strlit("g");
    assert(ascii_lowercase("G"@) =~= "g"@);
    lemma_trim_fixed("G"@);
    lemma_one_name("G"@, "g"@);
    reveal_strlit("H");
    reveal_strlit("h");
    assert(ascii_lowercase("H"@) =~= "h"@);
    lemma_trim_fixed("H"@);
    lemma_one_name("H"@, "h"@);
    reveal_strlit("I");
    reveal_strlit("i");
    assert(ascii_lowercase("I"@) =~= "i"@);
    lemma_trim_fixed("I"@);
    lemma_one_name("I"@, "i"@);
    reveal_strlit("J");
    reveal_strlit("j");
    assert(ascii_lowercase("J"@) =~= "j"@);
    lemma_trim_fixed("J"@);
    lemma_one_name("J"@, "j"@);
    reveal_strlit("K");
    reveal_strlit("k");
    assert(ascii_lowercase("K"@) =~= "k"@);
    lemma_trim_fixed("K"@);
    lemma_one_name("K"@, "k"@);
    reveal_strlit("L");
    reveal_strlit("l");
    assert(ascii_lowercase("L"@) =~= "l"@);
    lemma_trim_fixed("L"@);
    lemma_one_name("L"@, "l"@);
    reveal_strlit("M");
    reveal_strlit("m");
    assert(ascii_lowercase("M"@) =~= "m"@);
    lemma_trim_fixed("M"@);
    lemma_one_name("M"@, "m"@);
    reveal_strlit("N");
    reveal_strlit("n");
    assert(ascii_lowercase("N"@) =~= "n"@);
    lemma_trim_fixed("N"@);
    lemma_one_name("N"@, "n"@);
    reveal_strlit("O");
    reveal_strlit("o");
    assert(ascii_lowercase("O"@) =~= "o"@);
    lemma_trim_fixed("O"@);
    lemma_one_name("O"@, "o"@);
    reveal_strlit("P");
    reveal_strlit("p");
    assert(ascii_lowercase("P"@) =~= "p"@);
    lemma_trim_fixed("P"@);
    lemma_one_name("P"@, "p"@);
    reveal_strlit("Q");
    reveal_strlit("q");
    assert(ascii_lowercase("Q"@) =~= "q"@);
    lemma_trim_fixed("Q"@);
    lemma_one_name("Q"@, "q"@);
    reveal_strlit("R");
    reveal_strlit("r");
    assert(ascii_lowercase("R"@) =~= "r"@);
    lemma_trim_fixed("R"@);
    lemma_one_name("R"@, "r"@);
    reveal_strlit("S");
    reveal_strlit("s");
    assert(ascii_lowercase("S"@) =~= "s"@);
    lemma_trim_fixed("S"@);
    lemma_one_name("S"@, "s"@);
    reveal_strlit("T");
    reveal_strlit("t");
    assert(ascii_lowercase("T"@) =~= "t"@);
    lemma_trim_fixed("T"@);
    lemma_one_name("T"@, "t"@);
    reveal_strlit("U");
    reveal_strlit("u");
    assert(ascii_lowercase("U"@) =~= "u"@);
    lemma_trim_fixed("U"@);
    lemma_one_name("U"@, "u"@);
    reveal_strlit("V");
    reveal_strlit("v");
    assert(ascii_lowercase("V"@) =~= "v"@);
    lemma_trim_fixed("V"@);
    lemma_one_name("V"@, "v"@);
    reveal_strlit("W");
    reveal_strlit("w");
    assert(ascii_lowercase("W"@) =~= "w"@);
    lemma_trim_fixed("W"@);
    lemma_one_name("W"@, "w"@);
    reveal_strlit("X");
    reveal_strlit("x");
    assert(ascii_lowercase("X"@) =~= "x"@);
    lemma_trim_fixed("X"@);
    lemma_one_name("X"@, "x"@);
    reveal_strlit("Y");
    reveal_strlit("y");
    assert(ascii_lowercase("Y"@) =~= "y"@);
    lemma_trim_fixed("Y"@);
    lemma_one_name("Y"@, "y"@);
    reveal_strlit("Z");
    reveal_strlit("z");
    assert(ascii_lowercase("Z"@) =~= "z"@);
    lemma_trim_fixed("Z"@);
    lemma_one_name("Z"@, "z"@);
}

/// A shortcut that is just a digit is read as that digit's key with no
/// modifier.
pub proof fn law_digit_keys_read()
    ensures
        hotkey_spec("0"@) == (Seq::<u16>::empty(), KEY_0),
        hotkey_spec("1"@) == (Seq::<u16>::empty(), KEY_1),
        hotkey_spec("2"@) == (Seq::<u16>::empty(), KEY_2),
        hotkey_spec("3"@) == (Seq::<u16>::empty(), KEY_3),
        hotkey_spec("4"@) == (Seq::<u16>::empty(), KEY_4),
        hotkey_spec("5"@) == (Seq::<u16>::empty(), KEY_5),
        hotkey_spec("6"@) == (Seq::<u16>::empty(), KEY_6),
        hotkey_spec("7"@) == (Seq::<u16>::empty(), KEY_7),
        hotkey_spec("8"@) == (Seq::<u16>::empty(), KEY_8),
        hotkey_spec("9"@) == (Seq::<u16>::empty(), KEY_9),
{
    law_key_name_table();
    law_modifier_name_table();
    reveal_strlit("0");
    reveal_strlit("0");
    assert(ascii_lowercase("0"@) =~= "0"@);
    lemma_trim_fixed("0"@);
    lemma_one_name("0"@, "0"@);
    reveal_strlit("1");
    reveal_strlit("1");
    assert(ascii_lowercase("1"@) =~= "1"@);
    lemma_trim_fixed("1"@);
    lemma_one_name("1"@, "1"@);
    reveal_strlit("2");
    reveal_strlit("2");
    assert(ascii_lowercase("2"@) =~= "2"@);
    lemma_trim_fixed("2"@);
    lemma_one_name("2"@, "2"@);
    reveal_strlit("3");
    reveal_strlit("3");
    assert(ascii_lowercase("3"@) =~= "3"@);
    lemma_trim_fixed("3"@);
    lemma_one_name("3"@, "3"@);
    reveal_strlit("4");
    reveal_strlit("4");
    assert(ascii_lowercase("4"@) =~= "4"@);
    lemma_trim_fixed("4"@);
    lemma_one_name("4"@, "4"@);
    reveal_strlit("5");
    reveal_strlit("5");
    assert(ascii_lowercase("5"@) =~= "5"@);
    lemma_trim_fixed("5"@);
    lemma_one_name("5"@, "5"@);
    reveal_strlit("6");
    reveal_strlit("6");
    assert(ascii_lowercase("6"@) =~= "6"@);
    lemma_trim_fixed("6"@);
    lemma_one_name("6"@, "6"@);
    reveal_strlit("7");
    reveal_strlit("7");
    assert(ascii_lowercase("7"@) =~= "7"@);
    lemma_trim_fixed("7"@);
    lemma_one_name("7"@, "7"@);
    reveal_strlit("8");
    reveal_strlit("8");
    assert(ascii_lowercase("8"@) =~= "8"@);
    lemma_trim_fixed("8"@);
    lemma_one_name("8"@, "8"@);
    reveal_strlit("9");
    reveal_strlit("9");
    assert(ascii_lowercase("9"@) =~= "9"@);
    lemma_trim_fixed("9"@);
    lemma_one_name("9"@, "9"@);
}

/// A shortcut that is just a modifier name, written with a capital, is
/// read as that modifier with the key left at Space.
pub proof fn law_modifier_names_read()
    ensures
        hotkey_spec("Ctrl"@) == (seq![KEY_LEFTCTRL], KEY_SPACE),
        hotkey_spec("Control"@) == (seq![KEY_LEFTCTRL], KEY_SPACE),
        hotkey_spec("Alt"@) == (seq![KEY_LEFTALT], KEY_SPACE),
        hotkey_spec("Option"@) == (seq![KEY_LEFTALT], KEY_SPACE),
        hotkey_spec("Shift"@) == (seq![KEY_LEFTSHIFT], KEY_SPACE),
        hotkey_spec("Super"@) == (seq![KEY_LEFTMETA], KEY_SPACE),
        hotkey_spec("Meta"@) == (seq![KEY_LEFTMETA], KEY_SPACE),
        hotkey_spec("Cmd"@) == (seq![KEY_LEFTMETA], KEY_SPACE),
        hotkey_spec("Win"@) == (seq![KEY_LEFTMETA], KEY_SPACE),
{
    law_key_name_table();
    law_modifier_name_table();
    reveal_strlit("Ctrl");
    reveal_strlit("ctrl");
    assert(ascii_lowercase("Ctrl"@) =~= "ctrl"@);
    lemma_trim_fixed("Ctrl"@);
    lemma_one_name("Ctrl"@, "ctrl"@);
    reveal_strlit("Control");
    reveal_strlit("control");
    assert(ascii_lowercase("Control"@) =~= "control"@);
    lemma_trim_fixed("Control"@);
    lemma_one_name("Control"@, "control"@);
    reveal_strlit("Alt");
    reveal_strlit("alt");
    assert(ascii_lowercase("Alt"@) =~= "alt"@);
    lemma_trim_fixed("Alt"@);
    lemma_one_name("Alt"@, "alt"@);
    reveal_strlit("Option");
    reveal_strlit("option");
    assert(ascii_lowercase("Option"@) =~= "option"@);
    lemma_trim_fixed("Option"@);
    lemma_one_name("Option"@, "option"@);
    reveal_strlit("Shift");
    reveal_strlit("shift");
    assert(ascii_lowercase("Shift"@) =~= "shift"@);
    lemma_trim_fixed("Shift"@);
    lemma_one_name("Shift"@, "shift"@);
    reveal_strlit("Super");
    reveal_strlit("super");
    assert(ascii_lowercase("Super"@) =~= "super"@);
    lemma_trim_fixed("Super"@);
    lemma_one_name("Super"@, "super"@);
    reveal_strlit("Meta");
    reveal_strlit("meta");
    assert(ascii_lowercase("Meta"@) =~= "meta"@);
    lemma_trim_fixed("Meta"@);
    lemma_one_name("Meta"@, "meta"@);
    reveal_strlit("Cmd");
    reveal_strlit("cmd");
    assert(ascii_lowercase("Cmd"@) =~= "cmd"@);
    lemma_trim_fixed("Cmd"@);
    lemma_one_name("Cmd"@, "cmd"@);
    reveal_strlit("Win");
    reveal_strlit("win");
    assert(ascii_lowercase("Win"@) =~= "win"@);
    lemma_trim_fixed("Win"@);
    lemma_one_name("Win"@, "win"@);
}

/// The shortcut daemon reads a shortcut recorded in the window as it was
/// held: the codes of the modifiers in the order Ctrl, Alt, Shift, Super,
/// and the key its label names (Space when no key has that name), for a
/// key whose label is ASCII, holds no `+`, has no white space at its ends
/// and does not name a modifier.
pub proof fn law_daemon_reads_recorded_hotkey(k: KeyInput, m: ModifierState)
    requires
        key_label(k).len() > 0,
        all_ascii(key_label(k)),
        forall|j: int| 0 <= j < key_label(k).len() ==> key_label(k)[j] != '+',
        trim(key_label(k)) == key_label(k),
        modifier_for(ascii_lowercase(key_label(k))) is None,
    ensures
        hotkey_spec(recorded_hotkey(k, join(modifier_names(m), "+"@))) == (
            modifier_codes(m),
            match key_for(ascii_lowercase(key_label(k))) {
                Some(code) => code,
                None => KEY_SPACE,
            },
        ),
{
    law_recorded_hotkey_parts(k, m);
    reveal_strlit("Ctrl");
    reveal_strlit("Alt");
    reveal_strlit("Shift");
    reveal_strlit("Super");
    reveal_strlit("ctrl");
    reveal_strlit("alt");
    reveal_strlit("shift");
    reveal_strlit("super");
    reveal_strlit("control");
    reveal_strlit("option");
    reveal_strlit("meta");
    reveal_strlit("cmd");
    reveal_strlit("win");
    assert("alt"@.len() == 3 && "ctrl"@.len() == 4 && "control"@.len() == 7);
    assert("shift"@.len() == 5 && "super"@.len() == 5 && "option"@.len() == 6);
    assert("shift"@[1] != "super"@[1]);
    let label = key_label(k);
    lemma_name_reads_as(label, ascii_lowercase(label));
    assert(ascii_lowercase("Ctrl"@) =~= "ctrl"@);
    assert(ascii_lowercase("Alt"@) =~= "alt"@);
    assert(ascii_lowercase("Shift"@) =~= "shift"@);
    assert(ascii_lowercase("Super"@) =~= "super"@);
    lemma_trim_fixed("Ctrl"@);
    lemma_trim_fixed("Alt"@);
    lemma_trim_fixed("Shift"@);
    lemma_trim_fixed("Super"@);
    lemma_name_reads_as("Ctrl"@, "ctrl"@);
    lemma_name_reads_as("Alt"@, "alt"@);
    lemma_name_reads_as("Shift"@, "shift"@);
    lemma_name_reads_as("Super"@, "super"@);
    let e = Seq::<Seq<char>>::empty();
    let na = if m.control {
        e.push("Ctrl"@)
    } else {
        e
    };
    let nb = if m.alt {
        na.push("Alt"@)
    } else {
        na
    };
    let nc = if m.shift {
        nb.push("Shift"@)
    } else {
        nb
    };
    let nd = if m.logo {
        nc.push("Super"@)
    } else {
        nc
    };
    assert(e.push("Ctrl"@) =~= seq!["Ctrl"@]);
    assert(nd == modifier_names(m));
    lemma_push_modifier(e, "Ctrl"@, KEY_LEFTCTRL);
    lemma_push_modifier(na, "Alt"@, KEY_LEFTALT);
    lemma_push_modifier(nb, "Shift"@, KEY_LEFTSHIFT);
    lemma_push_modifier(nc, "Super"@, KEY_LEFTMETA);
    assert(seq![KEY_LEFTCTRL] =~= Seq::<u16>::empty().push(KEY_LEFTCTRL));
    assert(modifiers_of(nd) == modifier_codes(m));
    let parts = nd.push(label);
    assert(parts.drop_last() =~= nd);
    lemma_modifier_names_name_no_key();
    assert forall|i: int| 0 <= i < nd.len() implies key_for(part_name(#[trigger] nd[i])) is None by {
        let x = nd[i];
        assert(x == "Ctrl"@ || x == "Alt"@ || x == "Shift"@ || x == "Super"@);
        if x == "Ctrl"@ {
            assert(part_name(x) == "ctrl"@);
        } else if x == "Alt"@ {
            assert(part_name(x) == "alt"@);
        } else if x == "Shift"@ {
            assert(part_name(x) == "shift"@);
        } else {
            assert(part_name(x) == "super"@);
        }
    }
    lemma_key_of_no_key(nd);
}

/// The key code of an ASCII letter (either case) or digit.
pub open spec fn char_code(c: char) -> Option<u16> {
    let l = ascii_lower(c);
    if l == 'a' {
        Some(KEY_A)
    }     else if l == 'b' {
        Some(KEY_B)
    }     else if l == 'c' {
        Some(KEY_C)
    }     else if l == 'd' {
        Some(KEY_D)
    }     else if l == 'e' {
        Some(KEY_E)
    }     else if l == 'f' {
        Some(KEY_F)
    }     else if l == 'g' {
        Some(KEY_G)
    }     else if l == 'h' {
        Some(KEY_H)
    }     else if l == 'i' {
        Some(KEY_I)
    }     else if l == 'j' {
        Some(KEY_J)
    }     else if l == 'k' {
        Some(KEY_K)
    }     else if l == 'l' {
        Some(KEY_L)
    }     else if l == 'm' {
        Some(KEY_M)
    }     else if l == 'n' {
        Some(KEY_N)
    }     else if l == 'o' {
        Some(KEY_O)
    }     else if l == 'p' {
        Some(KEY_P)
    }     else if l == 'q' {
        Some(KEY_Q)
    }     else if l == 'r' {
        Some(KEY_R)
    }     else if l == 's' {
        Some(KEY_S)
    }     else if l == 't' {
        Some(KEY_T)
    }     else if l == 'u' {
        Some(KEY_U)
    }     else if l == 'v' {
        Some(KEY_V)
    }     else if l == 'w' {
        Some(KEY_W)
    }     else if l == 'x' {
        Some(KEY_X)
    }     else if l == 'y' {
        Some(KEY_Y)
    }     else if l == 'z' {
        Some(KEY_Z)
    }     else if l == '0' {
        Some(KEY_0)
    }     else if l == '1' {
        Some(KEY_1)
    }     else if l == '2' {
        Some(KEY_2)
    }     else if l == '3' {
        Some(KEY_3)
    }     else if l == '4' {
        Some(KEY_4)
    }     else if l == '5' {
        Some(KEY_5)
    }     else if l == '6' {
        Some(KEY_6)
    }     else if l == '7' {
        Some(KEY_7)
    }     else if l == '8' {
        Some(KEY_8)
    }     else if l == '9' {
        Some(KEY_9)
    } else {
        None
    }
}

/// The input code the shortcut daemon uses for a key the window records
/// with that name: one ASCII letter or digit, Space, Enter, Tab, Esc,
/// Backspace, Delete, the four arrows and F1 to F12; `None` for other keys.
pub open spec fn evdev_code(k: KeyInput) -> Option<u16> {
    match k {
        KeyInput::Named(n) => match n {
            NamedKey::Space => Some(KEY_SPACE),
            NamedKey::Enter => Some(KEY_ENTER),
            NamedKey::Tab => Some(KEY_TAB),
            NamedKey::Escape => Some(KEY_ESC),
            NamedKey::Backspace => Some(KEY_BACKSPACE),
            NamedKey::Delete => Some(KEY_DELETE),
            NamedKey::ArrowUp => Some(KEY_UP),
            NamedKey::ArrowDown => Some(KEY_DOWN),
            NamedKey::ArrowLeft => Some(KEY_LEFT),
            NamedKey::ArrowRight => Some(KEY_RIGHT),
            NamedKey::F1 => Some(KEY_F1),
            NamedKey::F2 => Some(KEY_F2),
            NamedKey::F3 => Some(KEY_F3),
            NamedKey::F4 => Some(KEY_F4),
            NamedKey::F5 => Some(KEY_F5),
            NamedKey::F6 => Some(KEY_F6),
            NamedKey::F7 => Some(KEY_F7),
            NamedKey::F8 => Some(KEY_F8),
            NamedKey::F9 => Some(KEY_F9),
            NamedKey::F10 => Some(KEY_F10),
            NamedKey::F11 => Some(KEY_F11),
            NamedKey::F12 => Some(KEY_F12),
            _ => None,
        },
        KeyInput::Character(c) => if c@.len() == 1 {
            char_code(c@[0])
        } else {
            None
        },
        KeyInput::Unidentified => None,
    }
}

proof fn lemma_key_for_single(c: char)
    requires
        c == ascii_lower(c),
    ensures
        key_for(seq![c]) == char_code(c),
{
    assert(seq![c].len() == 1);
    assert(seq![c][0] == c);
    reveal_strlit("space");
    reveal_strlit("enter");
    reveal_strlit("return");
    reveal_strlit("tab");
    reveal_strlit("escape");
    reveal_strlit("esc");
    reveal_strlit("backspace");
    reveal_strlit("delete");
    reveal_strlit("up");
    reveal_strlit("down");
    reveal_strlit("left");
    reveal_strlit("right");
    reveal_strlit("f1");
    reveal_strlit("f2");
    reveal_strlit("f3");
    reveal_strlit("f4");
    reveal_strlit("f5");
    reveal_strlit("f6");
    reveal_strlit("f7");
    reveal_strlit("f8");
    reveal_strlit("f9");
    reveal_strlit("f10");
    reveal_strlit("f11");
    reveal_strlit("f12");
    assert("space"@.len() == 5);
    assert("enter"@.len() == 5);
    assert("return"@.len() == 6);
    assert("tab"@.len() == 3);
    assert("escape"@.len() == 6);
    assert("esc"@.len() == 3);
    assert("backspace"@.len() == 9);
    assert("delete"@.len() == 6);
    assert("up"@.len() == 2);
    assert("down"@.len() == 4);
    assert("left"@.len() == 4);
    assert("right"@.len() == 5);
    assert("f1"@.len() == 2);
    assert("f2"@.len() == 2);
    assert("f3"@.len() == 2);
    assert("f4"@.len() == 2);
    assert("f5"@.len() == 2);
    assert("f6"@.len() == 2);
    assert("f7"@.len() == 2);
    assert("f8"@.len() == 2);
    assert("f9"@.len() == 2);
    assert("f10"@.len() == 3);
    assert("f11"@.len() == 3);
    assert("f12"@.len() == 3);
    reveal_strlit("a");
    assert("a"@ =~= seq!['a']);
    reveal_strlit("b");
    assert("b"@ =~= seq!['b']);
    reveal_strlit("c");
    assert("c"@ =~= seq!['c']);
    reveal_strlit("d");
    assert("d"@ =~= seq!['d']);
    reveal_strlit("e");
    assert("e"@ =~= seq!['e']);
    reveal_strlit("f");
    assert("f"@ =~= seq!['f']);
    reveal_strlit("g");
    assert("g"@ =~= seq!['g']);
    reveal_strlit("h");
    assert("h"@ =~= seq!['h']);
    reveal_strlit("i");
    assert("i"@ =~= seq!['i']);
    reveal_strlit("j");
    assert("j"@ =~= seq!['j']);
    reveal_strlit("k");
    assert("k"@ =~= seq!['k']);
    reveal_strlit("l");
    assert("l"@ =~= seq!['l']);
    reveal_strlit("m");
    assert("m"@ =~= seq!['m']);
    reveal_strlit("n");
    assert("n"@ =~= seq!['n']);
    reveal_strlit("o");
    assert("o"@ =~= seq!['o']);
    reveal_strlit("p");
    assert("p"@ =~= seq!['p']);
    reveal_strlit("q");
    assert("q"@ =~= seq!['q']);
    reveal_strlit("r");
    assert("r"@ =~= seq!['r']);
    reveal_strlit("s");
    assert("s"@ =~= seq!['s']);
    reveal_strlit("t");
    assert("t"@ =~= seq!['t']);
    reveal_strlit("u");
    assert("u"@ =~= seq!['u']);
    reveal_strlit("v");
    assert("v"@ =~= seq!['v']);
    reveal_strlit("w");
    assert("w"@ =~= seq!['w']);
    reveal_strlit("x");
    assert("x"@ =~= seq!['x']);
    reveal_strlit("y");
    assert("y"@ =~= seq!['y']);
    reveal_strlit("z");
    assert("z"@ =~= seq!['z']);
    reveal_strlit("0");
    assert("0"@ =~= seq!['0']);
    reveal_strlit("1");
    assert("1"@ =~= seq!['1']);
    reveal_strlit("2");
    assert("2"@ =~= seq!['2']);
    reveal_strlit("3");
    assert("3"@ =~= seq!['3']);
    reveal_strlit("4");
    assert("4"@ =~= seq!['4']);
    reveal_strlit("5");
    assert("5"@ =~= seq!['5']);
    reveal_strlit("6");
    assert("6"@ =~= seq!['6']);
    reveal_strlit("7");
    assert("7"@ =~= seq!['7']);
    reveal_strlit("8");
    assert("8"@ =~= seq!['8']);
    reveal_strlit("9");
    assert("9"@ =~= seq!['9']);
}

proof fn lemma_key_for_named()
    ensures
        key_for("space"@) == Some(KEY_SPACE),
        modifier_for("space"@) is None,
        key_for("enter"@) == Some(KEY_ENTER),
        modifier_for("enter"@) is None,
        key_for("tab"@) == Some(KEY_TAB),
        modifier_for("tab"@) is None,
        key_for("esc"@) == Some(KEY_ESC),
        modifier_for("esc"@) is None,
        key_for("backspace"@) == Some(KEY_BACKSPACE),
        modifier_for("backspace"@) is None,
        key_for("delete"@) == Some(KEY_DELETE),
        modifier_for("delete"@) is None,
        key_for("up"@) == Some(KEY_UP),
        modifier_for("up"@) is None,
        key_for("down"@) == Some(KEY_DOWN),
        modifier_for("down"@) is None,
        key_for("left"@) == Some(KEY_LEFT),
        modifier_for("left"@) is None,
        key_for("right"@) == Some(KEY_RIGHT),
        modifier_for("right"@) is None,
        key_for("f1"@) == Some(KEY_F1),
        modifier_for("f1"@) is None,
        key_for("f2"@) == Some(KEY_F2),
        modifier_for("f2"@) is None,
        key_for("f3"@) == Some(KEY_F3),
        modifier_for("f3"@) is None,
        key_for("f4"@) == Some(KEY_F4),
        modifier_for("f4"@) is None,
        key_for("f5"@) == Some(KEY_F5),
        modifier_for("f5"@) is None,
        key_for("f6"@) == Some(KEY_F6),
        modifier_for("f6"@) is None,
        key_for("f7"@) == Some(KEY_F7),
        modifier_for("f7"@) is None,
        key_for("f8"@) == Some(KEY_F8),
        modifier_for("f8"@) is None,
        key_for("f9"@) == Some(KEY_F9),
        modifier_for("f9"@) is None,
        key_for("f10"@) == Some(KEY_F10),
        modifier_for("f10"@) is None,
        key_for("f11"@) == Some(KEY_F11),
        modifier_for("f11"@) is None,
        key_for("f12"@) == Some(KEY_F12),
        modifier_for("f12"@) is None,
{
    reveal_strlit("alt");
    reveal_strlit("backspace");
    reveal_strlit("cmd");
    reveal_strlit("control");
    reveal_strlit("ctrl");
    reveal_strlit("delete");
    reveal_strlit("down");
    reveal_strlit("enter");
    reveal_strlit("esc");
    reveal_strlit("escape");
    reveal_strlit("f1");
    reveal_strlit("f10");
    reveal_strlit("f11");
    reveal_strlit("f12");
    reveal_strlit("f2");
    reveal_strlit("f3");
    reveal_strlit("f4");
    reveal_strlit("f5");
    reveal_strlit("f6");
    reveal_strlit("f7");
    reveal_strlit("f8");
    reveal_strlit("f9");
    reveal_strlit("left");
    reveal_strlit("meta");
    reveal_strlit("option");
    reveal_strlit("return");
    reveal_strlit("right");
    reveal_strlit("shift");
    reveal_strlit("space");
    reveal_strlit("super");
    reveal_strlit("tab");
    reveal_strlit("up");
    reveal_strlit("win");
    assert("alt"@.len() == 3);
    assert("backspace"@.len() == 9);
    assert("cmd"@.len() == 3);
    assert("control"@.len() == 7);
    assert("ctrl"@.len() == 4);
    assert("delete"@.len() == 6);
    assert("down"@.len() == 4);
    assert("enter"@.len() == 5);
    assert("esc"@.len() == 3);
    assert("escape"@.len() == 6);
    assert("f1"@.len() == 2);
    assert("f10"@.len() == 3);
    assert("f11"@.len() == 3);
    assert("f12"@.len() == 3);
    assert("f2"@.len() == 2);
    assert("f3"@.len() == 2);
    assert("f4"@.len() == 2);
    assert("f5"@.len() == 2);
    assert("f6"@.len() == 2);
    assert("f7"@.len() == 2);
    assert("f8"@.len() == 2);
    assert("f9"@.len() == 2);
    assert("left"@.len() == 4);
    assert("meta"@.len() == 4);
    assert("option"@.len() == 6);
    assert("return"@.len() == 6);
    assert("right"@.len() == 5);
    assert("shift"@.len() == 5);
    assert("space"@.len() == 5);
    assert("super"@.len() == 5);
    assert("tab"@.len() == 3);
    assert("up"@.len() == 2);
    assert("win"@.len() == 3);
    assert("space"@[1] != "shift"@[1]);
    assert("space"@[1] != "super"@[1]);
    assert("enter"@[0] != "space"@[0]);
    assert("enter"@[0] != "shift"@[0]);
    assert("enter"@[0] != "super"@[0]);
    assert("tab"@[0] != "alt"@[0]);
    assert("tab"@[0] != "cmd"@[0]);
    assert("tab"@[0] != "win"@[0]);
    assert("esc"@[0] != "tab"@[0]);
    assert("esc"@[0] != "alt"@[0]);
    assert("esc"@[0] != "cmd"@[0]);
    assert("esc"@[0] != "win"@[0]);
    assert("delete"@[0] != "return"@[0]);
    assert("delete"@[0] != "escape"@[0]);
    assert("delete"@[0] != "option"@[0]);
    assert("down"@[0] != "ctrl"@[0]);
    assert("down"@[0] != "meta"@[0]);
    assert("left"@[0] != "down"@[0]);
    assert("left"@[0] != "ctrl"@[0]);
    assert("left"@[0] != "meta"@[0]);
    assert("right"@[0] != "space"@[0]);
    assert("right"@[0] != "enter"@[0]);
    assert("right"@[0] != "shift"@[0]);
    assert("right"@[0] != "super"@[0]);
    assert("f1"@[0] != "up"@[0]);
    assert("f2"@[0] != "up"@[0]);
    assert("f2"@[1] != "f1"@[1]);
    assert("f3"@[0] != "up"@[0]);
    assert("f3"@[1] != "f1"@[1]);
    assert("f3"@[1] != "f2"@[1]);
    assert("f4"@[0] != "up"@[0]);
    assert("f4"@[1] != "f1"@[1]);
    assert("f4"@[1] != "f2"@[1]);
    assert("f4"@[1] != "f3"@[1]);
    assert("f5"@[0] != "up"@[0]);
    assert("f5"@[1] != "f1"@[1]);
    assert("f5"@[1] != "f2"@[1]);
    assert("f5"@[1] != "f3"@[1]);
    assert("f5"@[1] != "f4"@[1]);
    assert("f6"@[0] != "up"@[0]);
    assert("f6"@[1] != "f1"@[1]);
    assert("f6"@[1] != "f2"@[1]);
    assert("f6"@[1] != "f3"@[1]);
    assert("f6"@[1] != "f4"@[1]);
    assert("f6"@[1] != "f5"@[1]);
    assert("f7"@[0] != "up"@[0]);
    assert("f7"@[1] != "f1"@[1]);
    assert("f7"@[1] != "f2"@[1]);
    assert("f7"@[1] != "f3"@[1]);
    assert("f7"@[1] != "f4"@[1]);
    assert("f7"@[1] != "f5"@[1]);
    assert("f7"@[1] != "f6"@[1]);
    assert("f8"@[0] != "up"@[0]);
    assert("f8"@[1] != "f1"@[1]);
    assert("f8"@[1] != "f2"@[1]);
    assert("f8"@[1] != "f3"@[1]);
    assert("f8"@[1] != "f4"@[1]);
    assert("f8"@[1] != "f5"@[1]);
    assert("f8"@[1] != "f6"@[1]);
    assert("f8"@[1] != "f7"@[1]);
    assert("f9"@[0] != "up"@[0]);
    assert("f9"@[1] != "f1"@[1]);
    assert("f9"@[1] != "f2"@[1]);
    assert("f9"@[1] != "f3"@[1]);
    assert("f9"@[1] != "f4"@[1]);
    assert("f9"@[1] != "f5"@[1]);
    assert("f9"@[1] != "f6"@[1]);
    assert("f9"@[1] != "f7"@[1]);
    assert("f9"@[1] != "f8"@[1]);
    assert("f10"@[0] != "tab"@[0]);
    assert("f10"@[0] != "esc"@[0]);
    assert("f10"@[0] != "alt"@[0]);
    assert("f10"@[0] != "cmd"@[0]);
    assert("f10"@[0] != "win"@[0]);
    assert("f11"@[0] != "tab"@[0]);
    assert("f11"@[0] != "esc"@[0]);
    assert("f11"@[2] != "f10"@[2]);
    assert("f11"@[0] != "alt"@[0]);
    assert("f11"@[0] != "cmd"@[0]);
    assert("f11"@[0] != "win"@[0]);
    assert("f12"@[0] != "tab"@[0]);
    assert("f12"@[0] != "esc"@[0]);
    assert("f12"@[2] != "f10"@[2]);
    assert("f12"@[2] != "f11"@[2]);
    assert("f12"@[0] != "alt"@[0]);
    assert("f12"@[0] != "cmd"@[0]);
    assert("f12"@[0] != "win"@[0]);
}

proof fn lemma_named_label_reads(n: NamedKey)
    requires
        evdev_code(KeyInput::Named(n)) is Some,
    ensures
        named_label(n).len() > 0,
        all_ascii(named_label(n)),
        forall|j: int| 0 <= j < named_label(n).len() ==> named_label(n)[j] != '+',
        trim(named_label(n)) == named_label(n),
        modifier_for(ascii_lowercase(named_label(n))) is None,
        key_for(ascii_lowercase(named_label(n))) == evdev_code(KeyInput::Named(n)),
{
    lemma_key_for_named();
    match n {
        NamedKey::Space => {
            reveal_strlit("Space");
            reveal_strlit("space");
            assert(ascii_lowercase("Space"@) =~= "space"@);
            lemma_trim_fixed("Space"@);
        },
        NamedKey::Enter => {
            reveal_strlit("Enter");
            reveal_strlit("enter");
            assert(ascii_lowercase("Enter"@) =~= "enter"@);
            lemma_trim_fixed("Enter"@);
        },
        NamedKey::Tab => {
            reveal_strlit("Tab");
            reveal_strlit("tab");
            assert(ascii_lowercase("Tab"@) =~= "tab"@);
            lemma_trim_fixed("Tab"@);
        },
        NamedKey::Escape => {
            reveal_strlit("Esc");
            reveal_strlit("esc");
            assert(ascii_lowercase("Esc"@) =~= "esc"@);
            lemma_trim_fixed("Esc"@);
        },
        NamedKey::Backspace => {
            reveal_strlit("Backspace");
            reveal_strlit("backspace");
            assert(ascii_lowercase("Backspace"@) =~= "backspace"@);
            lemma_trim_fixed("Backspace"@);
        },
        NamedKey::Delete => {
            reveal_strlit("Delete");
            reveal_strlit("delete");
            assert(ascii_lowercase("Delete"@) =~= "delete"@);
            lemma_trim_fixed("Delete"@);
        },
        NamedKey::ArrowUp => {
            reveal_strlit("Up");
            reveal_strlit("up");
            assert(ascii_lowercase("Up"@) =~= "up"@);
            lemma_trim_fixed("Up"@);
        },
        NamedKey::ArrowDown => {
            reveal_strlit("Down");
            reveal_strlit("down");
            assert(ascii_lowercase("Down"@) =~= "down"@);
            lemma_trim_fixed("Down"@);
        },
        NamedKey::ArrowLeft => {
            reveal_strlit("Left");
            reveal_strlit("left");
            assert(ascii_lowercase("Left"@) =~= "left"@);
            lemma_trim_fixed("Left"@);
        },
        NamedKey::ArrowRight => {
            reveal_strlit("Right");
            reveal_strlit("right");
            assert(ascii_lowercase("Right"@) =~= "right"@);
            lemma_trim_fixed("Right"@);
        },
        NamedKey::F1 => {
            reveal_strlit("F1");
            reveal_strlit("f1");
            assert(ascii_lowercase("F1"@) =~= "f1"@);
            lemma_trim_fixed("F1"@);
        },
        NamedKey::F2 => {
            reveal_strlit("F2");
            reveal_strlit("f2");
            assert(ascii_lowercase("F2"@) =~= "f2"@);
            lemma_trim_fixed("F2"@);
        },
        NamedKey::F3 => {
            reveal_strlit("F3");
            reveal_strlit("f3");
            assert(ascii_lowercase("F3"@) =~= "f3"@);
            lemma_trim_fixed("F3"@);
        },
        NamedKey::F4 => {
            reveal_strlit("F4");
            reveal_strlit("f4");
            assert(ascii_lowercase("F4"@) =~= "f4"@);
            lemma_trim_fixed("F4"@);
        },
        NamedKey::F5 => {
            reveal_strlit("F5");
            reveal_strlit("f5");
            assert(ascii_lowercase("F5"@) =~= "f5"@);
            lemma_trim_fixed("F5"@);
        },
        NamedKey::F6 => {
            reveal_strlit("F6");
            reveal_strlit("f6");
            assert(ascii_lowercase("F6"@) =~= "f6"@);
            lemma_trim_fixed("F6"@);
        },
        NamedKey::F7 => {
            reveal_strlit("F7");
            reveal_strlit("f7");
            assert(ascii_lowercase("F7"@) =~= "f7"@);
            lemma_trim_fixed("F7"@);
        },
        NamedKey::F8 => {
            reveal_strlit("F8");
            reveal_strlit("f8");
            assert(ascii_lowercase("F8"@) =~= "f8"@);
            lemma_trim_fixed("F8"@);
        },
        NamedKey::F9 => {
            reveal_strlit("F9");
            reveal_strlit("f9");
            assert(ascii_lowercase("F9"@) =~= "f9"@);
            lemma_trim_fixed("F9"@);
        },
        NamedKey::F10 => {
            reveal_strlit("F10");
            reveal_strlit("f10");
            assert(ascii_lowercase("F10"@) =~= "f10"@);
            lemma_trim_fixed("F10"@);
        },
        NamedKey::F11 => {
            reveal_strlit("F11");
            reveal_strlit("f11");
            assert(ascii_lowercase("F11"@) =~= "f11"@);
            lemma_trim_fixed("F11"@);
        },
        NamedKey::F12 => {
            reveal_strlit("F12");
            reveal_strlit("f12");
            assert(ascii_lowercase("F12"@) =~= "f12"@);
            lemma_trim_fixed("F12"@);
        },
        _ => {},
    }
}

/// The shortcut daemon reads a shortcut recorded in the window with any
/// of the keys it knows by name (an ASCII letter or digit, Space, Enter,
/// Tab, Esc, Backspace, Delete, an arrow, F1 to F12) as the modifiers held,
/// in the order Ctrl, Alt, Shift, Super, and that key's input code.
pub proof fn law_daemon_reads_listed_keys(k: KeyInput, m: ModifierState)
    requires
        evdev_code(k) is Some,
    ensures
        hotkey_spec(recorded_hotkey(k, join(modifier_names(m), "+"@))) == (
            modifier_codes(m),
            evdev_code(k)->0,
        ),
{
    match k {
        KeyInput::Named(n) => {
            lemma_named_label_reads(n);
        },
        KeyInput::Character(c) => {
            let ch = c@[0];
            let label = key_label(k);
            let l = ascii_lower(ch);
            assert(is_ascii_char(ch));
            assert(label == seq![ascii_upper(ch)]);
            assert(ascii_lower(ascii_upper(ch)) == l);
            assert(ascii_lowercase(label) =~= seq![l]);
            assert(l == ascii_lower(l));
            lemma_key_for_single(l);
            assert(char_code(l) == char_code(ch));
            lemma_trim_fixed(label);
            reveal_strlit("ctrl");
            reveal_strlit("control");
            reveal_strlit("alt");
            reveal_strlit("option");
            reveal_strlit("shift");
            reveal_strlit("super");
            reveal_strlit("meta");
            reveal_strlit("cmd");
            reveal_strlit("win");
            assert(modifier_for(seq![l]) is None);
        },
        KeyInput::Unidentified => {},
    }
    law_daemon_reads_recorded_hotkey(k, m);
}

/// A modifier key on its own.
pub open spec fn is_modifier_only(k: KeyInput) -> bool {
    ||| k matches KeyInput::Named(NamedKey::Control)
    ||| k matches KeyInput::Named(NamedKey::Alt)
    ||| k matches KeyInput::Named(NamedKey::Shift)
    ||| k matches KeyInput::Named(NamedKey::Super)
}

/// The settings a save writes: the form's vault path and count, no index
/// place, and the shortcut unless it is empty.
pub open spec fn saved_config(f: SettingsForm, n: usize, c: Config) -> bool {
    &&& c.vault_path == f.vault_path
    &&& c.index_path is None
    &&& c.max_results == n
    &&& (f.hotkey@.len() == 0 ==> c.hotkey is None)
    &&& (f.hotkey@.len() > 0 ==> c.hotkey == Some(f.hotkey))
}

/// What handling message `m` in state `o` leads to: the new state `n` and
/// the work `a` it asks for.
pub open spec fn update_post(o: State, m: Message, n: State, a: Action) -> bool {
    match m {
        Message::SearchChanged(q) => {
            &&& n.search_query == q
            &&& n.selected == 0
            &&& n.screen == o.screen && n.config == o.config && n.settings == o.settings
            &&& n.after_restart == o.after_restart
            &&& if q@.len() == 0 {
                &&& n.results@.len() == 0
                &&& n.loading == o.loading
                &&& n.status@ == "Ready"@
                &&& a is Idle
            } else {
                &&& n.results == o.results
                &&& n.loading
                &&& n.status@ == "Searching '"@ + q@ + "'..."@
                &&& a == Action::Search { query: q, max_results: o.config.max_results }
            }
        },
        Message::SearchDone(rs) => {
            &&& n.results == rs
            &&& !n.loading
            &&& n.status@ == results_status(rs@.len())
            &&& n.screen == o.screen && n.config == o.config && n.search_query == o.search_query
            &&& n.selected == o.selected && n.settings == o.settings
            &&& n.after_restart == o.after_restart
            &&& a is Idle
        },
        Message::OpenSelected => {
            &&& n == o
            &&& a matches Action::OpenNoteAndClose(url) && if o.selected < o.results@.len() {
                url is Some && url->0@ == note_url_spec(
                    o.results@[o.selected as int].path@,
                    o.config.vault_path@,
                )
            } else {
                url is None
            }
        },
        Message::OpenPath(p) => {
            &&& n == o
            &&& a matches Action::OpenNoteAndClose(url) && url is Some && url->0@ == note_url_spec(
                p@,
                o.config.vault_path@,
            )
        },
        Message::RebuildIndex => {
            &&& same_but_status(o, n)
            &&& n.loading
            &&& n.status@ == "Rebuilding index..."@
            &&& a is Rebuild
        },
        Message::RebuildDone(ok) => {
            &&& same_but_status(o, n)
            &&& !n.loading
            &&& n.status@ == if ok {
                "Index rebuilt"@
            } else {
                "Index rebuild failed"@
            }
            &&& a is Idle
        },
        Message::KeyPressed(k) => {
            if o.settings.recording_hotkey {
                n == o && a is Idle
            } else if o.screen is Search {
                if k matches KeyInput::Named(NamedKey::Escape) {
                    n == o && a == Action::Dispatch(Message::Close)
                } else if k matches KeyInput::Named(NamedKey::ArrowUp) && o.selected > 0 {
                    &&& n.selected == o.selected - 1
                    &&& n == State { selected: n.selected, ..o }
                    &&& a == Action::Dispatch(Message::ScrollToSelected)
                } else if k matches KeyInput::Named(NamedKey::ArrowDown) && o.selected + 1
                    < o.results@.len() {
                    &&& n.selected == o.selected + 1
                    &&& n == State { selected: n.selected, ..o }
                    &&& a == Action::Dispatch(Message::ScrollToSelected)
                } else {
                    n == o && a is Idle
                }
            } else if k matches KeyInput::Named(NamedKey::Escape) {
                &&& n.screen is Search
                &&& fresh_form(n.settings, o.config)
                &&& n == State { screen: n.screen, settings: n.settings, ..o }
                &&& a is Idle
            } else {
                n == o && a is Idle
            }
        },
        Message::Close => n == o && a is Exit,
        Message::OpenSettings => {
            &&& n.screen is Settings
            &&& fresh_form(n.settings, o.config)
            &&& n == State { screen: n.screen, settings: n.settings, ..o }
            &&& a is Idle
        },
        Message::CloseSettings => {
            &&& n.screen is Search
            &&& fresh_form(n.settings, o.config)
            &&& n == State { screen: n.screen, settings: n.settings, ..o }
            &&& a is Idle
        },
        Message::VaultPathChanged(p) => {
            &&& same_but_form(o, n)
            &&& n.settings.vault_path == p
            &&& n.settings.max_results == o.settings.max_results
            &&& form_edited(o.settings, n.settings)
            &&& a is Idle
        },
        Message::MaxResultsChanged(v) => {
            &&& same_but_form(o, n)
            &&& n.settings.max_results == v
            &&& n.settings.vault_path == o.settings.vault_path
            &&& form_edited(o.settings, n.settings)
            &&& a is Idle
        },
        Message::StartRecordingHotkey => {
            &&& same_but_form(o, n)
            &&& n.settings.recording_hotkey
            &&& n.settings.pending_modifiers@.len() == 0
            &&& n.settings == SettingsForm {
                recording_hotkey: true,
                pending_modifiers: n.settings.pending_modifiers,
                ..o.settings
            }
            &&& a is Idle
        },
        Message::StopRecordingHotkey => {
            &&& same_but_form(o, n)
            &&& !n.settings.recording_hotkey
            &&& n.settings.pending_modifiers@.len() == 0
            &&& n.settings == SettingsForm {
                recording_hotkey: false,
                pending_modifiers: n.settings.pending_modifiers,
                ..o.settings
            }
            &&& a is Idle
        },
        Message::RecordHotkey(k, mods) => {
            if !o.settings.recording_hotkey || is_modifier_only(k) {
                n == o && a is Idle
            } else if cancels_recording(k) {
                n == o && a == Action::Dispatch(Message::StopRecordingHotkey)
            } else {
                &&& same_but_form(o, n)
                &&& n.settings.hotkey@ == recorded_hotkey(k, mods@)
                &&& !n.settings.recording_hotkey
                &&& n.settings.pending_modifiers@.len() == 0
                &&& !n.settings.saved
                &&& n.settings == SettingsForm {
                    hotkey: n.settings.hotkey,
                    recording_hotkey: false,
                    pending_modifiers: n.settings.pending_modifiers,
                    saved: false,
                    ..o.settings
                }
                &&& a is Idle
            }
        },
        Message::FocusSearch => n == o && a is FocusSearch,
        Message::ScrollToSelected => {
            &&& n == o
            &&& a == Action::ScrollTo(if o.selected >= 5 {
                (o.selected - 5) as usize
            } else {
                0
            })
        },
        Message::SaveSettings => match parse_usize_spec(o.settings.max_results@) {
            None => {
                &&& same_but_form(o, n)
                &&& n.settings.error is Some
                &&& n.settings.error->0@ == "Max results must be a number"@
                &&& n.settings == SettingsForm { error: n.settings.error, ..o.settings }
                &&& a is Idle
            },
            Some(count) => {
                &&& same_but_form(o, n)
                &&& n.settings == SettingsForm { saving: true, ..o.settings }
                &&& a matches Action::SaveConfig(c) && saved_config(o.settings, count, c)
            },
        },
        Message::SettingsSaved(result) => {
            &&& same_but_form(o, n)
            &&& match result {
                Ok(_) => {
                    &&& n.settings == SettingsForm {
                        saving: false,
                        saved: true,
                        error: None,
                        ..o.settings
                    }
                    &&& a is ReloadConfig
                },
                Err(e) => {
                    &&& n.settings == SettingsForm { saving: false, error: Some(e), ..o.settings }
                    &&& a is Idle
                },
            }
        },
        Message::BrowseVault => {
            &&& n == o
            &&& a == Action::PickFolder(o.settings.vault_path)
        },
        Message::FolderPicked(picked) => {
            &&& same_but_form(o, n)
            &&& match picked {
                Some(p) => n.settings == SettingsForm { vault_path: p, ..o.settings },
                None => n.settings == o.settings,
            }
            &&& a is Idle
        },
        Message::ConfigReloaded(result) => match result {
            Err(e) => {
                &&& same_but_form(o, n)
                &&& n.settings.error is Some
                &&& n.settings.error->0@ == "Failed to reload config: "@ + e@
                &&& n.settings == SettingsForm { error: n.settings.error, ..o.settings }
                &&& a is Idle
            },
            Ok(c) => {
                let changed = components(c.vault_path@) != components(o.config.vault_path@);
                &&& n.config == c
                &&& n.after_restart == Some(changed)
                &&& (changed ==> n.status@ == "New vault detected, rebuilding..."@)
                &&& (!changed ==> n.status == o.status)
                &&& n == State {
                    config: n.config,
                    after_restart: n.after_restart,
                    status: n.status,
                    ..o
                }
                &&& a is RestartWatcher
            },
        },
        Message::WatcherStarted(result) => {
            let watch_status = match result {
                Ok(_) => "Watching vault for changes"@,
                Err(e) => "Watcher error: "@ + e@,
            };
            &&& n == State { status: n.status, after_restart: None, ..o }
            &&& match o.after_restart {
                None => n.status@ == watch_status && a is Idle,
                Some(true) => n.status@ == watch_status && a is RebuildForNewVault,
                Some(false) => n.status@ == "Settings saved"@ && a is RestartDaemon,
            }
        },
    }
}

/// The selection is on a result, or at the top of the list.
pub open spec fn selection_valid(s: State) -> bool {
    s.selected == 0 || s.selected < s.results@.len()
}

/// Typing in the search field and pressing keys keep the selection on a
/// result (or at the top of the list); the arrow keys never move it past
/// either end.
pub proof fn law_navigation_keeps_selection(o: State, m: Message, n: State, a: Action)
    requires
        selection_valid(o),
        m is SearchChanged || m is KeyPressed,
        update_post(o, m, n, a),
    ensures
        selection_valid(n),
{
}

/// Opening the settings and saving them unchanged writes back the
/// settings in use: the same vault, the same result count (its decimal
/// text parses back to it) and the same shortcut, with the index in its
/// default place. A configured shortcut that is empty text is the one
/// exception: it is written as no shortcut.
pub proof fn law_unchanged_settings_save_back(o: State, n: State, a: Action)
    requires
        fresh_form(o.settings, o.config),
        update_post(o, Message::SaveSettings, n, a),
    ensures
        a matches Action::SaveConfig(c) && {
            &&& c.vault_path@ == o.config.vault_path@
            &&& c.max_results == o.config.max_results
            &&& c.index_path is None
            &&& match o.config.hotkey {
                Some(h) => if h@.len() > 0 {
                    c.hotkey is Some && c.hotkey->0@ == h@
                } else {
                    c.hotkey is None
                },
                None => c.hotkey is None,
            }
        },
{
    law_decimal_parses_back(o.config.max_results);
}

/// Typing in the search field puts the selection back at the top of the
/// list, whatever it was before.
pub proof fn law_typing_resets_selection(o: State, q: String, n: State, a: Action)
    requires
        update_post(o, Message::SearchChanged(q), n, a),
    ensures
        n.selected == 0,
{
}

/// After typing a search and receiving its results, Enter opens the top
/// hit of that search, whatever was selected before.
pub proof fn law_enter_opens_top_hit_of_new_search(
    s0: State,
    q: String,
    s1: State,
    a1: Action,
    rs: Vec<SearchResult>,
    s2: State,
    a2: Action,
    s3: State,
    a3: Action,
)
    requires
        update_post(s0, Message::SearchChanged(q), s1, a1),
        update_post(s1, Message::SearchDone(rs), s2, a2),
        rs@.len() > 0,
        update_post(s2, Message::OpenSelected, s3, a3),
    ensures
        a3 matches Action::OpenNoteAndClose(url) && url is Some && url->0@ == note_url_spec(
            rs@[0].path@,
            s0.config.vault_path@,
        ),
{
}

/// Esc on the settings screen, when no shortcut is being recorded, goes
/// back to the search screen with the form filled afresh from the settings
/// in use, and asks for no other work: it never closes the launcher.
pub proof fn law_escape_leaves_settings(o: State, n: State, a: Action)
    requires
        o.screen is Settings,
        !o.settings.recording_hotkey,
        update_post(o, Message::KeyPressed(KeyInput::Named(NamedKey::Escape)), n, a),
    ensures
        n.screen is Search,
        fresh_form(n.settings, o.config),
        n.config == o.config,
        n.results == o.results,
        n.search_query == o.search_query,
        a is Idle,
{
}

/// Handles one message: updates the state and returns the work to do.
pub fn update(state: &mut State, message: Message) -> (action: Action)
    ensures
        update_post(*old(state), message, *final(state), action),
{
    match message {
        Message::SearchChanged(query) => {
            state.search_query = query.clone();
            state.selected = 0;
            if query.as_str().is_empty() {
                state.results = Vec::new();
                state.status = owned("Ready");
                return Action::Idle;
            }
            state.loading = true;
            state.status = concat3("Searching '", query.as_str(), "'...");
            Action::Search { query, max_results: state.config.max_results }
        },
        Message::SearchDone(results) => {
            let n = results.len();
            state.results = results;
            state.loading = false;
            let count = usize_to_string(n);
            state.status = concat(count.as_str(), " results");
            Action::Idle
        },
        Message::OpenSelected => {
            if state.selected < state.results.len() {
                let url = note_url(
                    state.results[state.selected].path.as_str(),
                    state.config.vault_path.as_str(),
                );
                Action::OpenNoteAndClose(Some(url))
            } else {
                Action::OpenNoteAndClose(None)
            }
        },
        Message::OpenPath(path) => {
            let url = note_url(path.as_str(), state.config.vault_path.as_str());
            Action::OpenNoteAndClose(Some(url))
        },
        Message::RebuildIndex => {
            state.loading = true;
            state.status = owned("Rebuilding index...");
            Action::Rebuild
        },
        Message::RebuildDone(success) => {
            state.loading = false;
            state.status = if success {
                owned("Index rebuilt")
            } else {
                owned("Index rebuild failed")
            };
            Action::Idle
        },
        Message::KeyPressed(key) => {
            if state.settings.recording_hotkey {
                return Action::Idle;
            }
            match state.screen {
                Screen::Search => match key {
                    KeyInput::Named(NamedKey::Escape) => Action::Dispatch(Message::Close),
                    KeyInput::Named(NamedKey::ArrowUp) => {
                        if state.selected > 0 {
                            state.selected = state.selected - 1;
                            Action::Dispatch(Message::ScrollToSelected)
                        } else {
                            Action::Idle
                        }
                    },
                    KeyInput::Named(NamedKey::ArrowDown) => {
                        if state.selected < state.results.len() && state.selected + 1
                            < state.results.len() {
                            state.selected = state.selected + 1;
                            Action::Dispatch(Message::ScrollToSelected)
                        } else {
                            Action::Idle
                        }
                    },
                    _ => Action::Idle,
                },
                Screen::Settings => match key {
                    KeyInput::Named(NamedKey::Escape) => {
                        state.screen = Screen::Search;
                        state.settings = SettingsForm::from_config(&state.config);
                        Action::Idle
                    },
                    _ => Action::Idle,
                },
            }
        },
        Message::Close => Action::Exit,
        Message::OpenSettings => {
            state.screen = Screen::Settings;
            state.settings = SettingsForm::from_config(&state.config);
            Action::Idle
        },
        Message::CloseSettings => {
            state.screen = Screen::Search;
            state.settings = SettingsForm::from_config(&state.config);
            Action::Idle
        },
        Message::VaultPathChanged(path) => {
            state.settings.vault_path = path;
            state.settings.saved = false;
            state.settings.error = None;
            Action::Idle
        },
        Message::MaxResultsChanged(value) => {
            state.settings.max_results = value;
            state.settings.saved = false;
            state.settings.error = None;
            Action::Idle
        },
        Message::StartRecordingHotkey => {
            state.settings.recording_hotkey = true;
            state.settings.pending_modifiers = String::new();
            Action::Idle
        },
        Message::StopRecordingHotkey => {
            state.settings.recording_hotkey = false;
            state.settings.pending_modifiers = String::new();
            Action::Idle
        },
        Message::RecordHotkey(key, mods) => {
            if !state.settings.recording_hotkey {
                return Action::Idle;
            }
            match key {
                KeyInput::Named(NamedKey::Escape) => {
                    return Action::Dispatch(Message::StopRecordingHotkey);
                },
                KeyInput::Named(NamedKey::Backspace) => {
                    return Action::Dispatch(Message::StopRecordingHotkey);
                },
                KeyInput::Named(NamedKey::Control) | KeyInput::Named(NamedKey::Alt)
                | KeyInput::Named(NamedKey::Shift) | KeyInput::Named(NamedKey::Super) => {
                    return Action::Idle;
                },
                _ => {},
            }
            let key_str = key_to_string(&key);
            let hotkey = if mods.as_str().is_empty() {
                key_str
            } else {
                concat3(mods.as_str(), "+", key_str.as_str())
            };
            state.settings.hotkey = hotkey;
            state.settings.recording_hotkey = false;
            state.settings.pending_modifiers = String::new();
            state.settings.saved = false;
            Action::Idle
        },
        Message::FocusSearch => Action::FocusSearch,
        Message::ScrollToSelected => {
            let anchor = if state.selected >= 5 {
                state.selected - 5
            } else {
                0
            };
            Action::ScrollTo(anchor)
        },
        Message::SaveSettings => {
            match parse_usize(state.settings.max_results.as_str()) {
                None => {
                    state.settings.error = Some(owned("Max results must be a number"));
                    Action::Idle
                },
                Some(max_results) => {
                    let hotkey = if state.settings.hotkey.as_str().is_empty() {
                        None
                    } else {
                        Some(state.settings.hotkey.clone())
                    };
                    let new_config = Config {
                        vault_path: state.settings.vault_path.clone(),
                        index_path: None,
                        max_results,
                        hotkey,
                    };
                    state.settings.saving = true;
                    Action::SaveConfig(new_config)
                },
            }
        },
        Message::SettingsSaved(result) => {
            state.settings.saving = false;
            match result {
                Ok(()) => {
                    state.settings.saved = true;
                    state.settings.error = None;
                    Action::ReloadConfig
                },
                Err(e) => {
                    state.settings.error = Some(e);
                    Action::Idle
                },
            }
        },
        Message::BrowseVault => Action::PickFolder(state.settings.vault_path.clone()),
        Message::FolderPicked(picked) => {
            match picked {
                Some(p) => {
                    state.settings.vault_path = p;
                },
                None => {},
            }
            Action::Idle
        },
        Message::ConfigReloaded(result) => {
            match result {
                Err(e) => {
                    state.settings.error = Some(concat("Failed to reload config: ", e.as_str()));
                    Action::Idle
                },
                Ok(c) => {
                    let same = same_path(c.vault_path.as_str(), state.config.vault_path.as_str());
                    state.config = c;
                    if !same {
                        state.status = owned("New vault detected, rebuilding...");
                    }
                    state.after_restart = Some(!same);
                    Action::RestartWatcher
                },
            }
        },
        Message::WatcherStarted(result) => {
            state.status = match result {
                Ok(()) => owned("Watching vault for changes"),
                Err(e) => concat("Watcher error: ", e.as_str()),
            };
            let pending = state.after_restart;
            state.after_restart = None;
            match pending {
                None => Action::Idle,
                Some(true) => Action::RebuildForNewVault,
                Some(false) => {
                    state.status = owned("Settings saved");
                    Action::RestartDaemon
                },
            }
        },
    }
}

// ---------------------------------------------------------------------------
// Key presses the window listens for
// ---------------------------------------------------------------------------

/// The message a key press gives while a shortcut is being recorded: Esc
/// or Backspace stop recording; a modifier alone gives nothing; any other
/// key is recorded with the modifiers held.
pub fn recording_key_message(key: &KeyInput, modifiers: &ModifierState) -> (r: Option<Message>)
    ensures
        cancels_recording(*key) ==> r == Some(Message::StopRecordingHotkey),
        !cancels_recording(*key) && is_modifier_only(*key) ==> r is None,
        !cancels_recording(*key) && !is_modifier_only(*key) ==> (r matches Some(
            Message::RecordHotkey(k, mods),
        ) && k == *key && mods@ == join(modifier_names(*modifiers), "+"@)),
{
    match key {
        KeyInput::Named(NamedKey::Escape) | KeyInput::Named(NamedKey::Backspace) => Some(
            Message::StopRecordingHotkey,
        ),
        KeyInput::Named(NamedKey::Control) | KeyInput::Named(NamedKey::Alt) | KeyInput::Named(
            NamedKey::Shift,
        ) | KeyInput::Named(NamedKey::Super) => None,
        _ => Some(Message::RecordHotkey(key.clone(), build_modifier_string(modifiers))),
    }
}

/// A character key producing exactly `text`.
pub open spec fn is_character(k: KeyInput, text: Seq<char>) -> bool {
    k matches KeyInput::Character(c) && c@ == text
}

/// The message a key press gives on the main window: Ctrl+`,` opens the
/// settings, Ctrl+`r` rebuilds the index; the arrows, Esc and Enter are
/// passed on; other keys give nothing.
pub fn input_key_message(key: &KeyInput, modifiers: &ModifierState) -> (r: Option<Message>)
    ensures
        modifiers.control && is_character(*key, ","@) ==> r == Some(Message::OpenSettings),
        modifiers.control && !is_character(*key, ","@) && is_character(*key, "r"@) ==> r == Some(
            Message::RebuildIndex,
        ),
        !(modifiers.control && (is_character(*key, ","@) || is_character(*key, "r"@))) ==> if (
        key matches KeyInput::Named(NamedKey::ArrowUp) || key matches KeyInput::Named(
            NamedKey::ArrowDown,
        ) || key matches KeyInput::Named(NamedKey::Escape) || key matches KeyInput::Named(
            NamedKey::Enter,
        )) {
            r == Some(Message::KeyPressed(*key))
        } else {
            r is None
        },
{
    let (comma, letter_r) = match key {
        KeyInput::Character(c) => (crate::text::str_eq(c.as_str(), ","), crate::text::str_eq(
            c.as_str(),
            "r",
        )),
        _ => (false, false),
    };
    if modifiers.control && comma {
        Some(Message::OpenSettings)
    } else if modifiers.control && letter_r {
        Some(Message::RebuildIndex)
    } else {
        match key {
            KeyInput::Named(NamedKey::ArrowUp) | KeyInput::Named(NamedKey::ArrowDown)
            | KeyInput::Named(NamedKey::Escape) | KeyInput::Named(NamedKey::Enter) => Some(
                Message::KeyPressed(key.clone()),
            ),
            _ => None,
        }
    }
}

// ---------------------------------------------------------------------------
// What the window shows
// ---------------------------------------------------------------------------

/// A character that titles are shown without: emoji, variation
/// selectors, joiners and a few symbols.
pub open spec fn is_emoji(c: char) -> bool {
    ||| ('\u{1F300}' <= c && c <= '\u{1F9FF}')
    ||| ('\u{2600}' <= c && c <= '\u{27BF}')
    ||| ('\u{FE00}' <= c && c <= '\u{FE0F}')
    ||| c == '\u{200D}'
    ||| c == '\u{20E3}'
    ||| c == '\u{00A9}'
    ||| c == '\u{00AE}'
    ||| c == '\u{2122}'
    ||| c == '\u{23F0}'
    ||| c == '\u{23F3}'
}

/// `s` without the characters [`is_emoji`] names.
pub open spec fn without_emoji(s: Seq<char>) -> Seq<char>
    decreases s.len(),
{
    if s.len() == 0 {
        s
    } else if is_emoji(s.last()) {
        without_emoji(s.drop_last())
    } else {
        without_emoji(s.drop_last()).push(s.last())
    }
}

/// A title as shown: without emoji, then trimmed.
pub open spec fn shown_title(s: Seq<char>) -> Seq<char> {
    trim(without_emoji(s))
}

proof fn lemma_without_emoji_clean(s: Seq<char>)
    ensures
        forall|i: int| 0 <= i < without_emoji(s).len() ==> !is_emoji(#[trigger] without_emoji(s)[i]),
    decreases s.len(),
{
    if s.len() > 0 {
        let init = without_emoji(s.drop_last());
        lemma_without_emoji_clean(s.drop_last());
        if !is_emoji(s.last()) {
            assert forall|i: int| 0 <= i < init.len() + 1 implies !is_emoji(
                #[trigger] init.push(s.last())[i],
            ) by {
                if i < init.len() {
                    assert(init.push(s.last())[i] == init[i]);
                }
            }
        }
    }
}

proof fn lemma_without_emoji_fixed(s: Seq<char>)
    requires
        forall|i: int| 0 <= i < s.len() ==> !is_emoji(#[trigger] s[i]),
    ensures
        without_emoji(s) == s,
    decreases s.len(),
{
    if s.len() > 0 {
        lemma_without_emoji_fixed(s.drop_last());
        assert(s.drop_last().push(s.last()) =~= s);
    }
}

/// A shown title is shown as it is: it holds no emoji and has no white
/// space at its ends, so showing it again changes nothing.
pub proof fn law_shown_title_idempotent(s: Seq<char>)
    ensures
        shown_title(shown_title(s)) == shown_title(s),
{
    let w = without_emoji(s);
    lemma_without_emoji_clean(s);
    let r = lemma_trim_shape(w);
    let t = trim(w);
    assert forall|i: int| 0 <= i < t.len() implies !is_emoji(#[trigger] t[i]) by {
        assert(t[i] == w[r.0 + i]);
    }
    lemma_without_emoji_fixed(t);
    lemma_trim_idempotent(w);
}

fn char_is_emoji(c: char) -> (r: bool)
    ensures
        r == is_emoji(c),
{
    ('\u{1F300}' <= c && c <= '\u{1F9FF}') || ('\u{2600}' <= c && c <= '\u{27BF}') || ('\u{FE00}'
        <= c && c <= '\u{FE0F}') || c == '\u{200D}' || c == '\u{20E3}' || c == '\u{00A9}' || c
        == '\u{00AE}' || c == '\u{2122}' || c == '\u{23F0}' || c == '\u{23F3}'
}

/// A title without emoji, trimmed.
pub fn strip_emoji(s: &str) -> (r: String)
    ensures
        r@ == shown_title(s@),
{
    let v = chars_of(s);
    let mut kept: Vec<char> = Vec::new();
    let mut i: usize = 0;
    while i < v.len()
        invariant
            v@ == s@,
            i <= v.len(),
            kept@ == without_emoji(v@.take(i as int)),
        decreases v.len() - i,
    {
        proof {
            assert(v@.take(i + 1).drop_last() =~= v@.take(i as int));
        }
        if !char_is_emoji(v[i]) {
            kept.push(v[i]);
        }
        i = i + 1;
    }
    proof {
        assert(v@.take(v.len() as int) =~= v@);
    }
    let (a, b) = trim_bounds(&kept, 0, kept.len());
    proof {
        assert(kept@.subrange(0, kept.len() as int) =~= kept@);
    }
    string_of(&kept, a, b)
}

/// What the shortcut button shows: `Listening...` (with the modifiers
/// held so far) while recording, else the shortcut or `None`.
pub open spec fn hotkey_display_spec(f: SettingsForm) -> Seq<char> {
    if f.recording_hotkey {
        if f.pending_modifiers@.len() == 0 {
            "Listening..."@
        } else {
            "Listening... ("@ + f.pending_modifiers@ + ")"@
        }
    } else if f.hotkey@.len() == 0 {
        "None"@
    } else {
        f.hotkey@
    }
}

/// What the shortcut button shows.
pub fn hotkey_display(form: &SettingsForm) -> (r: String)
    ensures
        r@ == hotkey_display_spec(*form),
{
    if form.recording_hotkey {
        if form.pending_modifiers.as_str().is_empty() {
            owned("Listening...")
        } else {
            concat3("Listening... (", form.pending_modifiers.as_str(), ")")
        }
    } else if form.hotkey.as_str().is_empty() {
        owned("None")
    } else {
        form.hotkey.clone()
    }
}

/// What the settings screen shows besides its input fields: the shortcut
/// button's text and the message a press on it sends, the hint beside it,
/// the save button's text and whether it can be pressed, and the notes
/// below the form.
pub struct SettingsView {
    pub hotkey_label: String,
    pub hotkey_press: Message,
    pub hint: String,
    pub save_label: String,
    pub save_enabled: bool,
    /// `✓ Settings saved!` after a save.
    pub saved_note: Option<String>,
    /// `✗` and the error, when there is one.
    pub error_note: Option<String>,
}

/// What the settings screen shows for the form: while recording, the
/// shortcut button stops recording and the hint says how to cancel;
/// otherwise it starts recording. While a save is under way the save
/// button reads `Saving...` and cannot be pressed.
pub fn settings_view_model(form: &SettingsForm) -> (v: SettingsView)
    ensures
        v.hotkey_label@ == hotkey_display_spec(*form),
        form.recording_hotkey ==> v.hotkey_press is StopRecordingHotkey,
        !form.recording_hotkey ==> v.hotkey_press is StartRecordingHotkey,
        v.hint@ == if form.recording_hotkey {
            "Press your shortcut (Esc to cancel)"@
        } else {
            "Click to record"@
        },
        v.save_label@ == if form.saving {
            "Saving..."@
        } else {
            "Save"@
        },
        v.save_enabled == !form.saving,
        form.saved ==> v.saved_note is Some && v.saved_note->0@ == "✓ Settings saved!"@,
        !form.saved ==> v.saved_note is None,
        form.error is None ==> v.error_note is None,
        form.error matches Some(e) ==> v.error_note is Some && v.error_note->0@ == "✗ "@ + e@,
{
    SettingsView {
        hotkey_label: hotkey_display(form),
        hotkey_press: if form.recording_hotkey {
            Message::StopRecordingHotkey
        } else {
            Message::StartRecordingHotkey
        },
        hint: if form.recording_hotkey {
            owned("Press your shortcut (Esc to cancel)")
        } else {
            owned("Click to record")
        },
        save_label: if form.saving {
            owned("Saving...")
        } else {
            owned("Save")
        },
        save_enabled: !form.saving,
        saved_note: if form.saved {
            Some(owned("✓ Settings saved!"))
        } else {
            None
        },
        error_note: match &form.error {
            Some(e) => Some(concat("✗ ", e.as_str())),
            None => None,
        },
    }
}

/// The keyboard listeners the window runs.
pub struct Listeners {
    /// The main one, for the search and the settings shortcuts.
    pub input: bool,
    /// The one that records a shortcut.
    pub recording: bool,
}

/// Which keyboard listeners run: the main one always, the shortcut
/// recorder exactly while a shortcut is being recorded.
pub fn active_listeners(state: &State) -> (r: Listeners)
    ensures
        r.input,
        r.recording == state.settings.recording_hotkey,
{
    Listeners { input: true, recording: state.settings.recording_hotkey }
}

/// Whether the window says that nothing was found: there is a query, no
/// result, and no search under way.
pub fn shows_no_results(state: &State) -> (r: bool)
    ensures
        r == (state.results@.len() == 0 && state.search_query@.len() > 0 && !state.loading),
{
    state.results.len() == 0 && !state.search_query.as_str().is_empty() && !state.loading
}

/// One line of the result list.
pub struct ResultRow {
    /// The title without emoji.
    pub title: String,
    /// `[[n]]` for a note with `n > 0` wikilinks.
    pub wikilinks_label: Option<String>,
    /// The folder name after a space.
    pub folder_label: String,
    /// The note to open when the line is clicked.
    pub path: String,
    pub selected: bool,
    /// The first three lines of the note.
    pub preview: String,
}

/// The preview of a note's text: its first three lines, that is the text
/// before its third line break (`\n`), or all of it when it has fewer.
pub open spec fn preview_of(content: Seq<char>) -> Seq<char> {
    let ls = split_on(content, '\n');
    join(
        ls.take(
            if ls.len() < 3 {
                ls.len() as int
            } else {
                3
            },
        ),
        seq!['\n'],
    )
}

/// The first three lines of a note's text.
pub fn preview(content: &str) -> (r: String)
    ensures
        r@ == preview_of(content@),
{
    let lines = split_char(content, '\n');
    let ghost ls = lines.deep_view();
    let k: usize = if lines.len() < 3 {
        lines.len()
    } else {
        3
    };
    let mut first: Vec<String> = Vec::new();
    let mut i: usize = 0;
    while i < k
        invariant
            i <= k <= lines.len(),
            ls == lines.deep_view(),
            first.deep_view() == ls.take(i as int),
        decreases k - i,
    {
        let ghost before = first.deep_view();
        first.push(lines[i].clone());
        proof {
            assert(first.deep_view() =~= before.push(ls[i as int]));
            assert(ls.take(i + 1) =~= ls.take(i as int).push(ls[i as int]));
        }
        i = i + 1;
    }
    proof {
        reveal_strlit("\n");
        assert("\n"@ =~= seq!['\n']);
    }
    join_with(&first, "\n")
}

/// The lines of the result list, one per result, in order.
pub fn result_rows(state: &State) -> (rows: Vec<ResultRow>)
    ensures
        rows@.len() == state.results@.len(),
        forall|i: int| 0 <= i < rows@.len() ==> {
            let r = #[trigger] rows@[i];
            let s = state.results@[i];
            &&& r.title@ == shown_title(s.title@)
            &&& (s.wikilinks@.len() == 0 ==> r.wikilinks_label is None)
            &&& (s.wikilinks@.len() > 0 ==> r.wikilinks_label is Some
                && r.wikilinks_label->0@ == "[["@ + decimal(s.wikilinks@.len()) + "]]"@)
            &&& r.folder_label@ == " "@ + s.folder@
            &&& r.path == s.path
            &&& r.selected == (i == state.selected)
            &&& r.preview@ == preview_of(s.content@)
        },
{
    let mut rows: Vec<ResultRow> = Vec::new();
    let mut i: usize = 0;
    while i < state.results.len()
        invariant
            i <= state.results.len(),
            rows@.len() == i,
            forall|j: int| 0 <= j < i ==> {
                let r = #[trigger] rows@[j];
                let s = state.results@[j];
                &&& r.title@ == shown_title(s.title@)
                &&& (s.wikilinks@.len() == 0 ==> r.wikilinks_label is None)
                &&& (s.wikilinks@.len() > 0 ==> r.wikilinks_label is Some
                    && r.wikilinks_label->0@ == "[["@ + decimal(s.wikilinks@.len()) + "]]"@)
                &&& r.folder_label@ == " "@ + s.folder@
                &&& r.path == s.path
                &&& r.selected == (j == state.selected)
                &&& r.preview@ == preview_of(s.content@)
            },
        decreases state.results.len() - i,
    {
        let result = &state.results[i];
        let n = result.wikilinks.len();
        let label = if n == 0 {
            None
        } else {
            let count = usize_to_string(n);
            Some(concat3("[[", count.as_str(), "]]"))
        };
        rows.push(
            ResultRow {
                title: strip_emoji(result.title.as_str()),
                wikilinks_label: label,
                folder_label: concat(" ", result.folder.as_str()),
                path: result.path.clone(),
                selected: i == state.selected,
                preview: preview(result.content.as_str()),
            },
        );
        i = i + 1;
    }
    rows
}

/// The results listed for the hits of a search, in order: title, path,
/// the folder holding the note, its wikilinks and its text.
pub fn search_results_from_hits(hits: Vec<(String, String, Vec<String>, String)>) -> (rs: Vec<
    SearchResult,
>)
    ensures
        rs@.len() == hits@.len(),
        forall|i: int| 0 <= i < rs@.len() ==> {
            let r = #[trigger] rs@[i];
            &&& r.title == hits@[i].0
            &&& r.path == hits@[i].1
            &&& r.folder@ == folder_name(hits@[i].1@)
            &&& r.wikilinks == hits@[i].2
            &&& r.content == hits@[i].3
        },
{
    let mut rs: Vec<SearchResult> = Vec::new();
    let mut hits = hits;
    let ghost all = hits@;
    let mut remaining: Vec<(String, String, Vec<String>, String)> = Vec::new();
    // Take the hits out from the back, then put them in order.
    while hits.len() > 0
        invariant
            hits@.len() + remaining@.len() == all.len(),
            forall|j: int| 0 <= j < hits@.len() ==> hits@[j] == all[j],
            forall|j: int| 0 <= j < remaining@.len() ==> remaining@[j] == all[all.len() - 1 - j],
        decreases hits.len(),
    {
        let h = hits.pop().unwrap();
        remaining.push(h);
    }
    while remaining.len() > 0
        invariant
            rs@.len() + remaining@.len() == all.len(),
            forall|j: int| 0 <= j < remaining@.len() ==> remaining@[j] == all[all.len() - 1 - j],
            forall|i: int| 0 <= i < rs@.len() ==> {
                let r = #[trigger] rs@[i];
                &&& r.title == all[i].0
                &&& r.path == all[i].1
                &&& r.folder@ == folder_name(all[i].1@)
                &&& r.wikilinks == all[i].2
                &&& r.content == all[i].3
            },
        decreases remaining.len(),
    {
        let (title, path, wikilinks, content) = remaining.pop().unwrap();
        let folder = extract_folder(path.as_str());
        rs.push(SearchResult { title, path, folder, wikilinks, content });
    }
    rs
}

} // verus!

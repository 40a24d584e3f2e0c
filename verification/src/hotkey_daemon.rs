//! The global shortcut: parsing its text and deciding, key event by key
//! event, when it is pressed.
//!
//! Keys are Linux input event codes (`u16`), the codes `evdev` reports.
use vstd::prelude::*;
use std::collections::HashSet;

use crate::config::Config;
use crate::text::{
    all_ascii, ascii_lowercase, owned, split_char, split_on, str_eq, to_lowercase, trim, trim_str,
    unicode_lowercase,
};

verus! {

broadcast use vstd::std_specs::hash::group_hash_axioms;

// Linux input event codes of the keys the launcher knows.
pub const KEY_LEFTCTRL: u16 = 29;

pub const KEY_RIGHTCTRL: u16 = 97;

pub const KEY_LEFTALT: u16 = 56;

pub const KEY_RIGHTALT: u16 = 100;

pub const KEY_LEFTSHIFT: u16 = 42;

pub const KEY_RIGHTSHIFT: u16 = 54;

pub const KEY_LEFTMETA: u16 = 125;

pub const KEY_RIGHTMETA: u16 = 126;

pub const KEY_ESC: u16 = 1;

pub const KEY_1: u16 = 2;

pub const KEY_2: u16 = 3;

pub const KEY_3: u16 = 4;

pub const KEY_4: u16 = 5;

pub const KEY_5: u16 = 6;

pub const KEY_6: u16 = 7;

pub const KEY_7: u16 = 8;

pub const KEY_8: u16 = 9;

pub const KEY_9: u16 = 10;

pub const KEY_0: u16 = 11;

pub const KEY_BACKSPACE: u16 = 14;

pub const KEY_TAB: u16 = 15;

pub const KEY_Q: u16 = 16;

pub const KEY_W: u16 = 17;

pub const KEY_E: u16 = 18;

pub const KEY_R: u16 = 19;

pub const KEY_T: u16 = 20;

pub const KEY_Y: u16 = 21;

pub const KEY_U: u16 = 22;

pub const KEY_I: u16 = 23;

pub const KEY_O: u16 = 24;

pub const KEY_P: u16 = 25;

pub const KEY_ENTER: u16 = 28;

pub const KEY_A: u16 = 30;

pub const KEY_S: u16 = 31;

pub const KEY_D: u16 = 32;

pub const KEY_F: u16 = 33;

pub const KEY_G: u16 = 34;

pub const KEY_H: u16 = 35;

pub const KEY_J: u16 = 36;

pub const KEY_K: u16 = 37;

pub const KEY_L: u16 = 38;

pub const KEY_Z: u16 = 44;

pub const KEY_X: u16 = 45;

pub const KEY_C: u16 = 46;

pub const KEY_V: u16 = 47;

pub const KEY_B: u16 = 48;

pub const KEY_N: u16 = 49;

pub const KEY_M: u16 = 50;

pub const KEY_SPACE: u16 = 57;

pub const KEY_F1: u16 = 59;

pub const KEY_F2: u16 = 60;

pub const KEY_F3: u16 = 61;

pub const KEY_F4: u16 = 62;

pub const KEY_F5: u16 = 63;

pub const KEY_F6: u16 = 64;

pub const KEY_F7: u16 = 65;

pub const KEY_F8: u16 = 66;

pub const KEY_F9: u16 = 67;

pub const KEY_F10: u16 = 68;

pub const KEY_F11: u16 = 87;

pub const KEY_F12: u16 = 88;

pub const KEY_UP: u16 = 103;

pub const KEY_LEFT: u16 = 105;

pub const KEY_RIGHT: u16 = 106;

pub const KEY_DOWN: u16 = 108;

pub const KEY_DELETE: u16 = 111;

// ---------------------------------------------------------------------------
// Parsing a shortcut such as `Ctrl+Shift+F5`
// ---------------------------------------------------------------------------

/// The modifier a lower-case part of a shortcut names (its left key).
pub open spec fn modifier_for(name: Seq<char>) -> Option<u16> {
    if name == "ctrl"@ || name == "control"@ {
        Some(KEY_LEFTCTRL)
    } else if name == "alt"@ || name == "option"@ {
        Some(KEY_LEFTALT)
    } else if name == "shift"@ {
        Some(KEY_LEFTSHIFT)
    } else if name == "super"@ || name == "meta"@ || name == "cmd"@ || name == "win"@ {
        Some(KEY_LEFTMETA)
    } else {
        None
    }
}

/// The key a lower-case part of a shortcut names, if it names one.
pub open spec fn key_for(name: Seq<char>) -> Option<u16> {
    if name == "space"@ {
        Some(KEY_SPACE)
    } else if name == "enter"@ || name == "return"@ {
        Some(KEY_ENTER)
    } else if name == "tab"@ {
        Some(KEY_TAB)
    } else if name == "escape"@ || name == "esc"@ {
        Some(KEY_ESC)
    } else if name == "backspace"@ {
        Some(KEY_BACKSPACE)
    } else if name == "delete"@ {
        Some(KEY_DELETE)
    } else if name == "up"@ {
        Some(KEY_UP)
    } else if name == "down"@ {
        Some(KEY_DOWN)
    } else if name == "left"@ {
        Some(KEY_LEFT)
    } else if name == "right"@ {
        Some(KEY_RIGHT)
    } else if name == "f1"@ {
        Some(KEY_F1)
    } else if name == "f2"@ {
        Some(KEY_F2)
    } else if name == "f3"@ {
        Some(KEY_F3)
    } else if name == "f4"@ {
        Some(KEY_F4)
    } else if name == "f5"@ {
        Some(KEY_F5)
    } else if name == "f6"@ {
        Some(KEY_F6)
    } else if name == "f7"@ {
        Some(KEY_F7)
    } else if name == "f8"@ {
        Some(KEY_F8)
    } else if name == "f9"@ {
        Some(KEY_F9)
    } else if name == "f10"@ {
        Some(KEY_F10)
    } else if name == "f11"@ {
        Some(KEY_F11)
    } else if name == "f12"@ {
        Some(KEY_F12)
    } else if name == "a"@ {
        Some(KEY_A)
    } else if name == "b"@ {
        Some(KEY_B)
    } else if name == "c"@ {
        Some(KEY_C)
    } else if name == "d"@ {
        Some(KEY_D)
    } else if name == "e"@ {
        Some(KEY_E)
    } else if name == "f"@ {
        Some(KEY_F)
    } else if name == "g"@ {
        Some(KEY_G)
    } else if name == "h"@ {
        Some(KEY_H)
    } else if name == "i"@ {
        Some(KEY_I)
    } else if name == "j"@ {
        Some(KEY_J)
    } else if name == "k"@ {
        Some(KEY_K)
    } else if name == "l"@ {
        Some(KEY_L)
    } else if name == "m"@ {
        Some(KEY_M)
    } else if name == "n"@ {
        Some(KEY_N)
    } else if name == "o"@ {
        Some(KEY_O)
    } else if name == "p"@ {
        Some(KEY_P)
    } else if name == "q"@ {
        Some(KEY_Q)
    } else if name == "r"@ {
        Some(KEY_R)
    } else if name == "s"@ {
        Some(KEY_S)
    } else if name == "t"@ {
        Some(KEY_T)
    } else if name == "u"@ {
        Some(KEY_U)
    } else if name == "v"@ {
        Some(KEY_V)
    } else if name == "w"@ {
        Some(KEY_W)
    } else if name == "x"@ {
        Some(KEY_X)
    } else if name == "y"@ {
        Some(KEY_Y)
    } else if name == "z"@ {
        Some(KEY_Z)
    } else if name == "0"@ {
        Some(KEY_0)
    } else if name == "1"@ {
        Some(KEY_1)
    } else if name == "2"@ {
        Some(KEY_2)
    } else if name == "3"@ {
        Some(KEY_3)
    } else if name == "4"@ {
        Some(KEY_4)
    } else if name == "5"@ {
        Some(KEY_5)
    } else if name == "6"@ {
        Some(KEY_6)
    } else if name == "7"@ {
        Some(KEY_7)
    } else if name == "8"@ {
        Some(KEY_8)
    } else if name == "9"@ {
        Some(KEY_9)
    } else {
        None
    }
}

/// A part of a shortcut as it is matched: trimmed, then lower-cased (for
/// ASCII text that is ASCII lower-casing).
pub open spec fn part_name(part: Seq<char>) -> Seq<char> {
    let t = trim(part);
    if all_ascii(t) {
        ascii_lowercase(t)
    } else {
        unicode_lowercase(t)
    }
}

/// The modifiers the parts name, in the order they appear.
pub open spec fn modifiers_of(parts: Seq<Seq<char>>) -> Seq<u16>
    decreases parts.len(),
{
    if parts.len() == 0 {
        Seq::empty()
    } else {
        let init = modifiers_of(parts.drop_last());
        match modifier_for(part_name(parts.last())) {
            Some(m) => init.push(m),
            None => init,
        }
    }
}

/// The key the last part naming a key names, or Space when none does.
pub open spec fn key_of(parts: Seq<Seq<char>>) -> u16
    decreases parts.len(),
{
    if parts.len() == 0 {
        KEY_SPACE
    } else {
        match key_for(part_name(parts.last())) {
            Some(k) => k,
            None => key_of(parts.drop_last()),
        }
    }
}

/// A shortcut's modifiers and key: the text is split at `+`; each part
/// names a modifier, a key, or nothing.
pub open spec fn hotkey_spec(s: Seq<char>) -> (Seq<u16>, u16) {
    let parts = split_on(s, '+');
    (modifiers_of(parts), key_of(parts))
}

/// The modifier a lower-case name names.
fn modifier_named(name: &str) -> (r: Option<u16>)
    ensures
        r == modifier_for(name@),
{
    if str_eq(name, "ctrl") || str_eq(name, "control") {
        Some(KEY_LEFTCTRL)
    } else if str_eq(name, "alt") || str_eq(name, "option") {
        Some(KEY_LEFTALT)
    } else if str_eq(name, "shift") {
        Some(KEY_LEFTSHIFT)
    } else if str_eq(name, "super") || str_eq(name, "meta") || str_eq(name, "cmd") || str_eq(
        name,
        "win",
    ) {
        Some(KEY_LEFTMETA)
    } else {
        None
    }
}

/// The key a lower-case name names.
fn key_named(name: &str) -> (r: Option<u16>)
    ensures
        r == key_for(name@),
{
    if str_eq(name, "space") {
        Some(KEY_SPACE)
    } else if str_eq(name, "enter") || str_eq(name, "return") {
        Some(KEY_ENTER)
    } else if str_eq(name, "tab") {
        Some(KEY_TAB)
    } else if str_eq(name, "escape") || str_eq(name, "esc") {
        Some(KEY_ESC)
    } else if str_eq(name, "backspace") {
        Some(KEY_BACKSPACE)
    } else if str_eq(name, "delete") {
        Some(KEY_DELETE)
    } else if str_eq(name, "up") {
        Some(KEY_UP)
    } else if str_eq(name, "down") {
        Some(KEY_DOWN)
    } else if str_eq(name, "left") {
        Some(KEY_LEFT)
    } else if str_eq(name, "right") {
        Some(KEY_RIGHT)
    } else if str_eq(name, "f1") {
        Some(KEY_F1)
    } else if str_eq(name, "f2") {
        Some(KEY_F2)
    } else if str_eq(name, "f3") {
        Some(KEY_F3)
    } else if str_eq(name, "f4") {
        Some(KEY_F4)
    } else if str_eq(name, "f5") {
        Some(KEY_F5)
    } else if str_eq(name, "f6") {
        Some(KEY_F6)
    } else if str_eq(name, "f7") {
        Some(KEY_F7)
    } else if str_eq(name, "f8") {
        Some(KEY_F8)
    } else if str_eq(name, "f9") {
        Some(KEY_F9)
    } else if str_eq(name, "f10") {
        Some(KEY_F10)
    } else if str_eq(name, "f11") {
        Some(KEY_F11)
    } else if str_eq(name, "f12") {
        Some(KEY_F12)
    } else if str_eq(name, "a") {
        Some(KEY_A)
    } else if str_eq(name, "b") {
        Some(KEY_B)
    } else if str_eq(name, "c") {
        Some(KEY_C)
    } else if str_eq(name, "d") {
        Some(KEY_D)
    } else if str_eq(name, "e") {
        Some(KEY_E)
    } else if str_eq(name, "f") {
        Some(KEY_F)
    } else if str_eq(name, "g") {
        Some(KEY_G)
    } else if str_eq(name, "h") {
        Some(KEY_H)
    } else if str_eq(name, "i") {
        Some(KEY_I)
    } else if str_eq(name, "j") {
        Some(KEY_J)
    } else if str_eq(name, "k") {
        Some(KEY_K)
    } else if str_eq(name, "l") {
        Some(KEY_L)
    } else if str_eq(name, "m") {
        Some(KEY_M)
    } else if str_eq(name, "n") {
        Some(KEY_N)
    } else if str_eq(name, "o") {
        Some(KEY_O)
    } else if str_eq(name, "p") {
        Some(KEY_P)
    } else if str_eq(name, "q") {
        Some(KEY_Q)
    } else if str_eq(name, "r") {
        Some(KEY_R)
    } else if str_eq(name, "s") {
        Some(KEY_S)
    } else if str_eq(name, "t") {
        Some(KEY_T)
    } else if str_eq(name, "u") {
        Some(KEY_U)
    } else if str_eq(name, "v") {
        Some(KEY_V)
    } else if str_eq(name, "w") {
        Some(KEY_W)
    } else if str_eq(name, "x") {
        Some(KEY_X)
    } else if str_eq(name, "y") {
        Some(KEY_Y)
    } else if str_eq(name, "z") {
        Some(KEY_Z)
    } else if str_eq(name, "0") {
        Some(KEY_0)
    } else if str_eq(name, "1") {
        Some(KEY_1)
    } else if str_eq(name, "2") {
        Some(KEY_2)
    } else if str_eq(name, "3") {
        Some(KEY_3)
    } else if str_eq(name, "4") {
        Some(KEY_4)
    } else if str_eq(name, "5") {
        Some(KEY_5)
    } else if str_eq(name, "6") {
        Some(KEY_6)
    } else if str_eq(name, "7") {
        Some(KEY_7)
    } else if str_eq(name, "8") {
        Some(KEY_8)
    } else if str_eq(name, "9") {
        Some(KEY_9)
    } else {
        None
    }
}

/// The modifiers and the key of a shortcut such as `Super+Space`
/// (modifiers in order of appearance, always left-hand codes; the key
/// defaults to Space).
pub fn parse_hotkey(hotkey: &str) -> (r: (Vec<u16>, u16))
    ensures
        r.0@ == hotkey_spec(hotkey@).0,
        r.1 == hotkey_spec(hotkey@).1,
{
    let parts = split_char(hotkey, '+');
    let ghost ps = parts.deep_view();
    let mut modifiers: Vec<u16> = Vec::new();
    let mut key = KEY_SPACE;
    let mut i: usize = 0;
    while i < parts.len()
        invariant
            ps == parts.deep_view(),
            ps == split_on(hotkey@, '+'),
            i <= parts.len(),
            modifiers@ == modifiers_of(ps.take(i as int)),
            key == key_of(ps.take(i as int)),
        decreases parts.len() - i,
    {
        proof {
            assert(ps.take(i + 1).drop_last() =~= ps.take(i as int));
            assert(ps.take(i + 1).last() == parts@[i as int]@);
        }
        let trimmed = trim_str(parts[i].as_str());
        let name = to_lowercase(trimmed.as_str());
        match modifier_named(name.as_str()) {
            Some(m) => modifiers.push(m),
            None => {},
        }
        match key_named(name.as_str()) {
            Some(k) => key = k,
            None => {},
        }
        i = i + 1;
    }
    proof {
        assert(ps.take(ps.len() as int) =~= ps);
    }
    (modifiers, key)
}

// ---------------------------------------------------------------------------
// Modifier groups: left and right keys of a modifier count as one
// ---------------------------------------------------------------------------

/// The group of a modifier key: 0 Ctrl, 1 Alt, 2 Shift, 3 Super; -1 for
/// any other key.
pub open spec fn group_of(k: u16) -> int {
    if k == KEY_LEFTCTRL || k == KEY_RIGHTCTRL {
        0
    } else if k == KEY_LEFTALT || k == KEY_RIGHTALT {
        1
    } else if k == KEY_LEFTSHIFT || k == KEY_RIGHTSHIFT {
        2
    } else if k == KEY_LEFTMETA || k == KEY_RIGHTMETA {
        3
    } else {
        -1
    }
}

/// The left key of a group.
pub open spec fn left_key(g: int) -> u16 {
    if g == 0 {
        KEY_LEFTCTRL
    } else if g == 1 {
        KEY_LEFTALT
    } else if g == 2 {
        KEY_LEFTSHIFT
    } else {
        KEY_LEFTMETA
    }
}

/// The right key of a group.
pub open spec fn right_key(g: int) -> u16 {
    if g == 0 {
        KEY_RIGHTCTRL
    } else if g == 1 {
        KEY_RIGHTALT
    } else if g == 2 {
        KEY_RIGHTSHIFT
    } else {
        KEY_RIGHTMETA
    }
}

/// A modifier key.
pub open spec fn is_modifier_key(k: u16) -> bool {
    group_of(k) >= 0
}

/// Either key of group `g` is held.
pub open spec fn group_held(g: int, pressed: Set<u16>) -> bool {
    pressed.contains(left_key(g)) || pressed.contains(right_key(g))
}

/// `k` is a modifier and its group is held.
pub open spec fn modifier_is_active(k: u16, pressed: Set<u16>) -> bool {
    is_modifier_key(k) && group_held(group_of(k), pressed)
}

/// 1 for true, 0 for false.
pub open spec fn one_if(b: bool) -> nat {
    if b {
        1
    } else {
        0
    }
}

/// How many of the four groups are held.
pub open spec fn held_groups(pressed: Set<u16>) -> nat {
    one_if(group_held(0, pressed)) + one_if(group_held(1, pressed)) + one_if(group_held(2, pressed))
        + one_if(group_held(3, pressed))
}

/// Some key of `target` is in group `g`.
pub open spec fn in_target(g: int, target: Seq<u16>) -> bool {
    exists|i: int| 0 <= i < target.len() && group_of(#[trigger] target[i]) == g
}

/// How many of the four groups `target` names.
pub open spec fn target_groups(target: Seq<u16>) -> nat {
    one_if(in_target(0, target)) + one_if(in_target(1, target)) + one_if(in_target(2, target))
        + one_if(in_target(3, target))
}

/// The shortcut fires: with modifiers, every one is held and no other
/// group is; without modifiers, no group is held.
pub open spec fn fires(target: Seq<u16>, pressed: Set<u16>) -> bool {
    if target_groups(target) > 0 {
        (forall|i: int| 0 <= i < target.len() ==> modifier_is_active(#[trigger] target[i], pressed))
            && held_groups(pressed) == target_groups(target)
    } else {
        held_groups(pressed) == 0
    }
}

/// Whether `key` is one of the eight modifier keys.
pub fn is_modifier(key: u16) -> (r: bool)
    ensures
        r == is_modifier_key(key),
{
    key == KEY_LEFTCTRL || key == KEY_RIGHTCTRL || key == KEY_LEFTALT || key == KEY_RIGHTALT
        || key == KEY_LEFTSHIFT || key == KEY_RIGHTSHIFT || key == KEY_LEFTMETA || key
        == KEY_RIGHTMETA
}

/// Whether the modifier group of `key` is held (either side counts); false
/// for a key that is not a modifier.
pub fn modifier_active(key: u16, pressed: &HashSet<u16>) -> (r: bool)
    ensures
        r == modifier_is_active(key, pressed@),
{
    if key == KEY_LEFTCTRL || key == KEY_RIGHTCTRL {
        pressed.contains(&KEY_LEFTCTRL) || pressed.contains(&KEY_RIGHTCTRL)
    } else if key == KEY_LEFTALT || key == KEY_RIGHTALT {
        pressed.contains(&KEY_LEFTALT) || pressed.contains(&KEY_RIGHTALT)
    } else if key == KEY_LEFTSHIFT || key == KEY_RIGHTSHIFT {
        pressed.contains(&KEY_LEFTSHIFT) || pressed.contains(&KEY_RIGHTSHIFT)
    } else if key == KEY_LEFTMETA || key == KEY_RIGHTMETA {
        pressed.contains(&KEY_LEFTMETA) || pressed.contains(&KEY_RIGHTMETA)
    } else {
        false
    }
}

/// How many modifier groups are held.
pub fn modifier_group_count(pressed: &HashSet<u16>) -> (r: usize)
    ensures
        r == held_groups(pressed@),
{
    let mut count: usize = 0;
    if pressed.contains(&KEY_LEFTCTRL) || pressed.contains(&KEY_RIGHTCTRL) {
        count = count + 1;
    }
    if pressed.contains(&KEY_LEFTALT) || pressed.contains(&KEY_RIGHTALT) {
        count = count + 1;
    }
    if pressed.contains(&KEY_LEFTSHIFT) || pressed.contains(&KEY_RIGHTSHIFT) {
        count = count + 1;
    }
    if pressed.contains(&KEY_LEFTMETA) || pressed.contains(&KEY_RIGHTMETA) {
        count = count + 1;
    }
    count
}

/// How many modifier groups the keys of `target` name.
pub fn target_modifier_group_count(target: &[u16]) -> (r: usize)
    ensures
        r == target_groups(target@),
{
    let mut has_ctrl = false;
    let mut has_alt = false;
    let mut has_shift = false;
    let mut has_meta = false;
    let mut i: usize = 0;
    while i < target.len()
        invariant
            i <= target.len(),
            has_ctrl == in_target(0, target@.take(i as int)),
            has_alt == in_target(1, target@.take(i as int)),
            has_shift == in_target(2, target@.take(i as int)),
            has_meta == in_target(3, target@.take(i as int)),
        decreases target.len() - i,
    {
        let k = target[i];
        let ghost pre = target@.take(i as int);
        let ghost post = target@.take(i + 1);
        proof {
            assert(post[i as int] == k);
            assert forall|g: int| #[trigger] in_target(g, post) == (in_target(g, pre) || group_of(k) == g) by {
                if in_target(g, pre) {
                    let j = choose|j: int| 0 <= j < pre.len() && group_of(#[trigger] pre[j]) == g;
                    assert(post[j] == pre[j]);
                }
                if in_target(g, post) {
                    let j = choose|j: int| 0 <= j < post.len() && group_of(#[trigger] post[j]) == g;
                    if j < i {
                        assert(pre[j] == post[j]);
                    }
                }
            }
        }
        if k == KEY_LEFTCTRL || k == KEY_RIGHTCTRL {
            has_ctrl = true;
        } else if k == KEY_LEFTALT || k == KEY_RIGHTALT {
            has_alt = true;
        } else if k == KEY_LEFTSHIFT || k == KEY_RIGHTSHIFT {
            has_shift = true;
        } else if k == KEY_LEFTMETA || k == KEY_RIGHTMETA {
            has_meta = true;
        }
        i = i + 1;
    }
    proof {
        assert(target@.take(target.len() as int) =~= target@);
    }
    let mut count: usize = 0;
    if has_ctrl {
        count = count + 1;
    }
    if has_alt {
        count = count + 1;
    }
    if has_shift {
        count = count + 1;
    }
    if has_meta {
        count = count + 1;
    }
    count
}

/// Whether the shortcut with modifiers `target` fires while `pressed` is
/// held: exactly the target's modifier groups are held (none, for a
/// shortcut without modifiers).
pub fn hotkey_fires(target: &[u16], pressed: &HashSet<u16>) -> (r: bool)
    ensures
        r == fires(target@, pressed@),
{
    let pressed_count = modifier_group_count(pressed);
    let target_count = target_modifier_group_count(target);
    let mut mods_match = true;
    let mut i: usize = 0;
    while i < target.len()
        invariant
            i <= target.len(),
            mods_match == forall|j: int| 0 <= j < i ==> modifier_is_active(#[trigger] target@[j], pressed@),
        decreases target.len() - i,
    {
        if !modifier_active(target[i], pressed) {
            mods_match = false;
        }
        i = i + 1;
    }
    if target_count > 0 {
        mods_match && pressed_count == target_count
    } else {
        pressed_count == 0
    }
}

/// The held keys after a key event (`value` 1 is a press, 0 a release):
/// a pressed modifier is added, a released key removed.
pub open spec fn after_key_event(pressed: Set<u16>, key: u16, value: i32) -> Set<u16> {
    if value == 1 && is_modifier_key(key) {
        pressed.insert(key)
    } else if value == 0 {
        pressed.remove(key)
    } else {
        pressed
    }
}

/// Applies one key event to the held modifiers and says whether it
/// triggers the shortcut: a press of the shortcut's key while exactly its
/// modifier groups are held.
pub fn handle_key_event(
    pressed: &mut HashSet<u16>,
    key: u16,
    value: i32,
    target_modifiers: &[u16],
    target_key: u16,
) -> (launch: bool)
    ensures
        final(pressed)@ == after_key_event(old(pressed)@, key, value),
        launch == (value == 1 && key == target_key && fires(target_modifiers@, final(pressed)@)),
{
    if value == 1 {
        if is_modifier(key) {
            pressed.insert(key);
        }
        if key == target_key {
            return hotkey_fires(target_modifiers, pressed);
        }
        false
    } else if value == 0 {
        pressed.remove(&key);
        false
    } else {
        false
    }
}

// ---------------------------------------------------------------------------
// Laws
// ---------------------------------------------------------------------------

/// The left and the right key of a modifier are interchangeable: whether a
/// modifier counts as held does not depend on which side was pressed.
pub proof fn law_modifier_sides_agree(a: u16, b: u16, pressed: Set<u16>)
    requires
        is_modifier_key(a),
        group_of(a) == group_of(b),
    ensures
        modifier_is_active(a, pressed) == modifier_is_active(b, pressed),
{
}

/// For a shortcut whose modifiers are all modifier keys, it fires exactly
/// when the groups held are the groups it names, no more and no fewer.
pub proof fn law_fires_iff_exact_groups(target: Seq<u16>, pressed: Set<u16>)
    requires
        forall|i: int| 0 <= i < target.len() ==> is_modifier_key(#[trigger] target[i]),
    ensures
        fires(target, pressed) <==> (forall|g: int| 0 <= g < 4 ==> (group_held(g, pressed) <==> #[trigger] in_target(g, target))),
{
    let all_active = forall|i: int| 0 <= i < target.len() ==> modifier_is_active(#[trigger] target[i], pressed);
    let covered = forall|g: int| 0 <= g < 4 ==> (#[trigger] in_target(g, target) ==> group_held(g, pressed));
    assert(all_active <==> covered) by {
        if all_active {
            assert forall|g: int| 0 <= g < 4 && #[trigger] in_target(g, target) implies group_held(g, pressed) by {
                let i = choose|i: int| 0 <= i < target.len() && group_of(#[trigger] target[i]) == g;
                assert(modifier_is_active(target[i], pressed));
            }
        }
        if covered {
            assert forall|i: int| 0 <= i < target.len() implies modifier_is_active(#[trigger] target[i], pressed) by {
                let g = group_of(target[i]);
                assert(in_target(g, target));
            }
        }
    }
    assert(in_target(0, target) ==> 0 <= 0 < 4);
    let t0 = in_target(0, target);
    let t1 = in_target(1, target);
    let t2 = in_target(2, target);
    let t3 = in_target(3, target);
    assert(covered <==> ((t0 ==> group_held(0, pressed)) && (t1 ==> group_held(1, pressed)) && (t2 ==> group_held(2, pressed)) && (t3 ==> group_held(3, pressed))));
    assert((forall|g: int| 0 <= g < 4 ==> (group_held(g, pressed) <==> #[trigger] in_target(g, target)))
        <==> ((group_held(0, pressed) == t0) && (group_held(1, pressed) == t1) && (group_held(2, pressed) == t2) && (group_held(3, pressed) == t3))) by {
        if (group_held(0, pressed) == t0) && (group_held(1, pressed) == t1) && (group_held(2, pressed) == t2) && (group_held(3, pressed) == t3) {
            assert forall|g: int| 0 <= g < 4 implies (group_held(g, pressed) <==> #[trigger] in_target(g, target)) by {
                if g == 0 {} else if g == 1 {} else if g == 2 {} else {}
            }
        }
    }
}

/// Only a release lets go of a key: a press or an autorepeat (or any value
/// other than a release) keeps every held key held, an event that is
/// neither a press nor a release changes nothing, and after a release the
/// key is not held.
pub proof fn law_only_release_lets_go(pressed: Set<u16>, key: u16, value: i32)
    ensures
        value != 0 && value != 1 ==> after_key_event(pressed, key, value) == pressed,
        value != 0 ==> pressed.subset_of(after_key_event(pressed, key, value)),
        value == 0 ==> !after_key_event(pressed, key, value).contains(key),
        value == 0 ==> after_key_event(pressed, key, value).subset_of(pressed),
{
}

/// A modifier held through its autorepeat still counts: pressing it and
/// then any number of repeats of it leaves it held, so the shortcut fires
/// on its key as if no repeat had come.
pub proof fn law_repeats_keep_modifier_held(pressed: Set<u16>, m: u16, repeats: nat)
    requires
        is_modifier_key(m),
    ensures
        repeated(after_key_event(pressed, m, 1), m, repeats) == pressed.insert(m),
    decreases repeats,
{
    if repeats > 0 {
        law_repeats_keep_modifier_held(pressed, m, (repeats - 1) as nat);
    }
}

/// The held keys after `n` autorepeat events (value 2) of `key`.
pub open spec fn repeated(pressed: Set<u16>, key: u16, n: nat) -> Set<u16>
    decreases n,
{
    if n == 0 {
        pressed
    } else {
        after_key_event(repeated(pressed, key, (n - 1) as nat), key, 2)
    }
}

// ---------------------------------------------------------------------------
// The daemon
// ---------------------------------------------------------------------------

/// The errno of a device that has gone (`ENODEV`).
pub const ENODEV: i32 = 19;

/// The shortcut daemon: its settings and whether it keeps running.
pub struct HotkeyDaemon {
    pub config: Config,
    pub running: bool,
}

/// What a device's listener does when reading its events failed.
pub enum FetchFailure {
    /// The keyboard is gone: stop listening to it.
    Disconnected,
    /// Wait a moment and read again.
    Retry,
}

impl HotkeyDaemon {
    /// A daemon for these settings, set to run.
    pub fn new(config: Config) -> (d: HotkeyDaemon)
        ensures
            d.config == config,
            d.running,
    {
        HotkeyDaemon { config, running: true }
    }

    /// The shortcut the daemon listens for: the configured one (none
    /// configured reads as empty text, which means Space alone).
    pub fn target(&self) -> (r: (Vec<u16>, u16))
        ensures
            ({
                let text = match self.config.hotkey {
                    Some(h) => h@,
                    None => Seq::empty(),
                };
                r.0@ == hotkey_spec(text).0 && r.1 == hotkey_spec(text).1
            }),
    {
        match &self.config.hotkey {
            Some(h) => parse_hotkey(h.as_str()),
            None => {
                let empty = String::new();
                parse_hotkey(empty.as_str())
            },
        }
    }
}

proof fn lemma_push_contains(s: Seq<Seq<char>>, x: Seq<char>, a: Seq<char>)
    ensures
        s.push(x).contains(a) <==> (s.contains(a) || a == x),
{
    if s.contains(a) {
        let j = choose|j: int| 0 <= j < s.len() && s[j] == a;
        assert(s.push(x)[j] == a);
    }
    if a == x {
        assert(s.push(x)[s.len() as int] == a);
    }
    if s.push(x).contains(a) {
        let j = choose|j: int| 0 <= j < s.push(x).len() && s.push(x)[j] == a;
        if j < s.len() {
            assert(s[j] == a);
        }
    }
}

/// The device files a keyboard listener runs for.
pub struct ActivePaths {
    paths: Vec<String>,
}

impl ActivePaths {
    /// The device files, as a set.
    pub closed spec fn files(&self) -> Set<Seq<char>> {
        self.paths.deep_view().to_set()
    }

    /// No listener runs yet.
    pub fn new() -> (a: ActivePaths)
        ensures
            a.files() == Set::<Seq<char>>::empty(),
    {
        let a = ActivePaths { paths: Vec::new() };
        assert(a.files() =~= Set::<Seq<char>>::empty());
        a
    }

    /// Whether a listener runs for `path`.
    pub fn contains(&self, path: &str) -> (r: bool)
        ensures
            r == self.files().contains(path@),
    {
        let ghost dv = self.paths.deep_view();
        let mut i: usize = 0;
        while i < self.paths.len()
            invariant
                i <= self.paths.len(),
                dv == self.paths.deep_view(),
                forall|j: int| 0 <= j < i ==> dv[j] != path@,
            decreases self.paths.len() - i,
        {
            if str_eq(self.paths[i].as_str(), path) {
                assert(dv[i as int] == path@);
                return true;
            }
            i = i + 1;
        }
        false
    }

    /// Claims `path` for a new listener: returns whether none ran for it
    /// yet, which is when one is to be started; afterwards one runs for it.
    pub fn claim(&mut self, path: &str) -> (start: bool)
        ensures
            start == !old(self).files().contains(path@),
            final(self).files() == old(self).files().insert(path@),
    {
        if self.contains(path) {
            assert(self.files().insert(path@) =~= self.files());
            return false;
        }
        let ghost before = self.paths.deep_view();
        self.paths.push(owned(path));
        proof {
            assert(self.paths.deep_view() =~= before.push(path@));
            assert forall|a: Seq<char>| #[trigger] self.files().contains(a) == before.to_set().insert(path@).contains(a) by {
                lemma_push_contains(before, path@, a);
            }
            assert(self.files() =~= before.to_set().insert(path@));
        }
        true
    }

    /// The listener for `path` ended: none runs for it any more.
    pub fn release(&mut self, path: &str)
        ensures
            final(self).files() == old(self).files().remove(path@),
    {
        let ghost dv = self.paths.deep_view();
        let mut kept: Vec<String> = Vec::new();
        let mut i: usize = 0;
        while i < self.paths.len()
            invariant
                i <= self.paths.len(),
                dv == self.paths.deep_view(),
                forall|a: Seq<char>| #[trigger] kept.deep_view().contains(a) == (dv.take(i as int).contains(a) && a != path@),
            decreases self.paths.len() - i,
        {
            let ghost before = kept.deep_view();
            let ghost x = dv[i as int];
            assert(dv.take(i + 1) =~= dv.take(i as int).push(x));
            if !str_eq(self.paths[i].as_str(), path) {
                kept.push(self.paths[i].clone());
                proof {
                    assert(kept.deep_view() =~= before.push(x));
                    assert forall|a: Seq<char>| #[trigger] kept.deep_view().contains(a) == (dv.take(i + 1).contains(a) && a != path@) by {
                        lemma_push_contains(before, x, a);
                        lemma_push_contains(dv.take(i as int), x, a);
                    }
                }
            } else {
                proof {
                    assert forall|a: Seq<char>| #[trigger] kept.deep_view().contains(a) == (dv.take(i + 1).contains(a) && a != path@) by {
                        lemma_push_contains(dv.take(i as int), x, a);
                    }
                }
            }
            i = i + 1;
        }
        let ghost old_files = self.files();
        self.paths = kept;
        proof {
            assert(dv.take(dv.len() as int) =~= dv);
            assert(self.files() =~= old_files.remove(path@));
        }
    }

    /// The device files a listener runs for.
    pub fn list(&self) -> (r: Vec<String>)
        ensures
            r.deep_view().to_set() == self.files(),
    {
        let mut r: Vec<String> = Vec::new();
        let mut i: usize = 0;
        while i < self.paths.len()
            invariant
                i <= self.paths.len(),
                r.deep_view() == self.paths.deep_view().take(i as int),
            decreases self.paths.len() - i,
        {
            let ghost before = r.deep_view();
            r.push(self.paths[i].clone());
            proof {
                assert(r.deep_view() =~= before.push(self.paths.deep_view()[i as int]));
                assert(self.paths.deep_view().take(i + 1) =~= self.paths.deep_view().take(i as int).push(self.paths.deep_view()[i as int]));
            }
            i = i + 1;
        }
        proof {
            assert(self.paths.deep_view().take(self.paths.len() as int) =~= self.paths.deep_view());
        }
        r
    }
}

/// Whether a file of `/dev/input` is an event device (its name starts
/// with `event`).
pub fn is_event_device(file_name: &str) -> (r: bool)
    ensures
        r == crate::text::has_prefix(file_name@, "event"@),
{
    let v = crate::text::chars_of(file_name);
    let p = crate::text::chars_of("event");
    let r = crate::text::occurs_at(&v, 0, &p);
    proof {
        if r {
            assert(v@.take(5) =~= v@.subrange(0, 5));
        } else if p@.len() <= v@.len() {
            assert(v@.take(p@.len() as int) =~= v@.subrange(0, p@.len() as int));
        }
    }
    r
}

/// What to do after reading a device failed with this OS error.
pub fn on_fetch_error(raw_os_error: Option<i32>) -> (r: FetchFailure)
    ensures
        r is Disconnected <==> raw_os_error == Some(ENODEV),
{
    match raw_os_error {
        Some(code) => {
            if code == ENODEV {
                FetchFailure::Disconnected
            } else {
                FetchFailure::Retry
            }
        },
        None => FetchFailure::Retry,
    }
}

} // verus!

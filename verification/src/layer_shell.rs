//! Which display server the launcher runs under, and whether the
//! compositor offers the `wlr-layer-shell` overlay protocol.
use vstd::prelude::*;

use crate::text::str_eq;

verus! {

/// A Wayland session: `WAYLAND_DISPLAY` is set, or `XDG_SESSION_TYPE` is
/// `wayland`.
pub fn detect_wayland(wayland_display_set: bool, session_type: Option<&str>) -> (r: bool)
    ensures
        r == (wayland_display_set || (session_type is Some && session_type->0@ == "wayland"@)),
{
    if wayland_display_set {
        return true;
    }
    match session_type {
        Some(t) => str_eq(t, "wayland"),
        None => false,
    }
}

/// Whether a Wayland session was detected; `false` before detection ran.
pub fn is_wayland(detected: Option<bool>) -> (r: bool)
    ensures
        r == (detected == Some(true)),
{
    match detected {
        Some(b) => b,
        None => false,
    }
}

/// Whether the compositor offers layer-shell overlays: only in a Wayland
/// session whose compositor was found to advertise it.
pub fn has_layer_shell(detected: Option<bool>, layer_shell: Option<bool>) -> (r: bool)
    ensures
        r == (detected == Some(true) && layer_shell == Some(true)),
{
    is_wayland(detected) && match layer_shell {
        Some(b) => b,
        None => false,
    }
}

/// Whether a global the compositor advertises is the layer-shell one.
pub fn is_layer_shell_interface(interface: &str) -> (r: bool)
    ensures
        r == (interface@ == "zwlr_layer_shell_v1"@),
{
    str_eq(interface, "zwlr_layer_shell_v1")
}

} // verus!

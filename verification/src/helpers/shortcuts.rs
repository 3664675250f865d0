//! The keyboard shortcuts that the settings hold.
use vstd::prelude::*;

use crate::models::app_settings::{
    default_shortcut_focus_search, default_shortcut_install_tab, default_shortcut_manage_tab,
    default_shortcut_update_tab, AppSettings,
};
use crate::text::{str_eq, string_from};

verus! {

/// The number of configurable shortcuts.
pub const SHORTCUT_COUNT: usize = 4;

pub open spec fn label_of(index: usize) -> Seq<char> {
    if index == 0 {
        "Switch to the Install tab"@
    } else if index == 1 {
        "Switch to the Update tab"@
    } else if index == 2 {
        "Switch to the Manage tab"@
    } else {
        "Focus the search bar"@
    }
}

/// What the shortcut at `index` does; every index past the first three is
/// the search shortcut.
pub fn shortcut_label(index: usize) -> (r: &'static str)
    ensures
        r@ == label_of(index),
{
    if index == 0 {
        "Switch to the Install tab"
    } else if index == 1 {
        "Switch to the Update tab"
    } else if index == 2 {
        "Switch to the Manage tab"
    } else {
        "Focus the search bar"
    }
}

pub open spec fn default_of(index: usize) -> Seq<char> {
    if index == 0 {
        "<Control>1"@
    } else if index == 1 {
        "<Control>2"@
    } else if index == 2 {
        "<Control>3"@
    } else {
        "<Control>f"@
    }
}

/// The default accelerator of the shortcut at `index`.
pub fn shortcut_default(index: usize) -> (r: String)
    ensures
        r@ == default_of(index),
{
    if index == 0 {
        default_shortcut_install_tab()
    } else if index == 1 {
        default_shortcut_update_tab()
    } else if index == 2 {
        default_shortcut_manage_tab()
    } else {
        default_shortcut_focus_search()
    }
}

pub open spec fn shortcut_of(settings: AppSettings, index: usize) -> Seq<char> {
    if index == 0 {
        settings.shortcut_install_tab@
    } else if index == 1 {
        settings.shortcut_update_tab@
    } else if index == 2 {
        settings.shortcut_manage_tab@
    } else {
        settings.shortcut_focus_search@
    }
}

/// The accelerator that the settings hold for the shortcut at `index`.
pub fn shortcut_get(settings: &AppSettings, index: usize) -> (r: &str)
    ensures
        r@ == shortcut_of(*settings, index),
{
    if index == 0 {
        settings.shortcut_install_tab.as_str()
    } else if index == 1 {
        settings.shortcut_update_tab.as_str()
    } else if index == 2 {
        settings.shortcut_manage_tab.as_str()
    } else {
        settings.shortcut_focus_search.as_str()
    }
}

/// Indices `i` and `j` name the same shortcut: all indices past the first
/// three name the search shortcut.
pub open spec fn same_slot(i: usize, j: usize) -> bool {
    i == j || (i >= 3 && j >= 3)
}

/// Stores `accel` as the shortcut at `index`; the other settings stay.
pub fn shortcut_set(settings: &mut AppSettings, index: usize, accel: &str)
    ensures
        shortcut_of(*final(settings), index) == accel@,
        forall|j: usize|
            !same_slot(j, index) ==> shortcut_of(*final(settings), j) == shortcut_of(
                *old(settings),
                j,
            ),
        final(settings).snapshot_on_update == old(settings).snapshot_on_update,
        final(settings).snapshot_on_install == old(settings).snapshot_on_install,
        final(settings).snapshot_on_remove == old(settings).snapshot_on_remove,
        final(settings).create_timeshift_snapshot == old(settings).create_timeshift_snapshot,
        final(settings).create_snapper_snapshot == old(settings).create_snapper_snapshot,
        final(settings).always_show_pkgbuild == old(settings).always_show_pkgbuild,
{
    if index == 0 {
        settings.shortcut_install_tab = string_from(accel);
    } else if index == 1 {
        settings.shortcut_update_tab = string_from(accel);
    } else if index == 2 {
        settings.shortcut_manage_tab = string_from(accel);
    } else {
        settings.shortcut_focus_search = string_from(accel);
    }
}

/// What the settings show for the shortcut at `index`: "Disabled" when it
/// is empty, else the label that GTK gives the parsed accelerator (`label`,
/// `None` when GTK cannot parse it), else the accelerator as stored.
pub fn shortcut_display(settings: &AppSettings, index: usize, label: Option<String>) -> (r: String)
    ensures
        shortcut_of(*settings, index).len() == 0 ==> r@ == "Disabled"@,
        shortcut_of(*settings, index).len() > 0 ==> r@ == (match label {
            Some(l) => l@,
            None => shortcut_of(*settings, index),
        }),
{
    let accel = shortcut_get(settings, index);
    if accel.is_empty() {
        return string_from("Disabled");
    }
    match label {
        Some(l) => l,
        None => string_from(accel),
    }
}

/// Whether a key press matches the accelerator `accel`. `parsed` is what
/// GTK parses `accel` into (its key, lowered, and its modifiers); the press
/// is its key, lowered, and its modifier state, of which only the bits in
/// `default_mask` count.
pub fn shortcut_matches(
    accel: &str,
    parsed: Option<(u32, u32)>,
    key_lower: u32,
    state: u32,
    default_mask: u32,
) -> (r: bool)
    ensures
        r == (accel@.len() > 0 && match parsed {
            Some((k, m)) => k == key_lower && m == state & default_mask,
            None => false,
        }),
{
    if accel.is_empty() {
        return false;
    }
    match parsed {
        Some((k, m)) => k == key_lower && m == state & default_mask,
        None => false,
    }
}

/// Whether two accelerators are the same shortcut: neither is empty, and
/// both parse to the same key (lowered) and modifiers, or, when either does
/// not parse, the texts are equal.
pub fn accels_equal(
    first: &str,
    second: &str,
    parsed_first: Option<(u32, u32)>,
    parsed_second: Option<(u32, u32)>,
) -> (r: bool)
    ensures
        r == (first@.len() > 0 && second@.len() > 0 && match (parsed_first, parsed_second) {
            (Some(a), Some(b)) => a == b,
            _ => first@ == second@,
        }),
{
    if first.is_empty() || second.is_empty() {
        return false;
    }
    match (parsed_first, parsed_second) {
        (Some((k1, m1)), Some((k2, m2))) => k1 == k2 && m1 == m2,
        _ => str_eq(first, second),
    }
}

/// The keysyms of the modifier keys: Shift, Control, Alt, Super and Meta on
/// either side, AltGr, Caps Lock and Shift Lock.
pub open spec fn modifier_keysyms() -> Set<u32> {
    set![
        0xffe1u32,
        0xffe2u32,
        0xffe3u32,
        0xffe4u32,
        0xffe9u32,
        0xffeau32,
        0xffebu32,
        0xffecu32,
        0xffe7u32,
        0xffe8u32,
        0xfe03u32,
        0xffe5u32,
        0xffe6u32,
    ]
}

/// Whether the key with this keysym is a modifier key, which cannot be a
/// shortcut on its own.
pub fn is_modifier_key(keyval: u32) -> (r: bool)
    ensures
        r == modifier_keysyms().contains(keyval),
{
    // Shift_L, Shift_R, Control_L, Control_R, Caps_Lock, Shift_Lock, Meta_L,
    // Meta_R, Alt_L, Alt_R, Super_L, Super_R are consecutive keysyms.
    (0xffe1u32 <= keyval && keyval <= 0xffec) || keyval == 0xfe03
}

} // verus!

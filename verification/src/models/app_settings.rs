use vstd::prelude::*;

verus! {

/// The user settings that the library's logic reads.
pub struct AppSettings {
    pub shortcut_install_tab: String,
    pub shortcut_update_tab: String,
    pub shortcut_manage_tab: String,
    pub shortcut_focus_search: String,
    pub snapshot_on_update: bool,
    pub snapshot_on_install: bool,
    pub snapshot_on_remove: bool,
    pub create_timeshift_snapshot: bool,
    pub create_snapper_snapshot: bool,
    pub always_show_pkgbuild: bool,
}

pub fn default_shortcut_install_tab() -> (r: String)
    ensures
        r@ == "<Control>1"@,
{
    String::from_str("<Control>1")
}

pub fn default_shortcut_update_tab() -> (r: String)
    ensures
        r@ == "<Control>2"@,
{
    String::from_str("<Control>2")
}

pub fn default_shortcut_manage_tab() -> (r: String)
    ensures
        r@ == "<Control>3"@,
{
    String::from_str("<Control>3")
}

pub fn default_shortcut_focus_search() -> (r: String)
    ensures
        r@ == "<Control>f"@,
{
    String::from_str("<Control>f")
}

} // verus!

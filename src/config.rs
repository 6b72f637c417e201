use vstd::prelude::*;

verus! {

/// The user's settings, as stored in the configuration file. Every field is optional:
/// a missing one keeps its earlier value when settings are merged.
#[derive(Clone, Debug)]
pub struct Config {
    pub hotkey: Option<String>,
    pub display_window_hotkey: Option<String>,
    pub writing_hotkey: Option<String>,
    pub always_show_icons: Option<bool>,
    pub hide_the_icon_in_the_dock: Option<bool>,
    pub configured: Option<bool>,
}

/// The newer value where there is one, else the older.
pub open spec fn prefer<T>(newer: Option<T>, older: Option<T>) -> Option<T> {
    match newer {
        Some(v) => Some(v),
        None => older,
    }
}

fn prefer_exec<T>(newer: Option<T>, older: Option<T>) -> (r: Option<T>)
    ensures
        r == prefer(newer, older),
{
    match newer {
        Some(v) => Some(v),
        None => older,
    }
}

/// Merges an update `cfg` into the stored settings `old`: each field takes the update's
/// value where it has one and keeps the stored value otherwise.
pub fn merge_config(cfg: Config, old: Config) -> (r: Config)
    ensures
        r.hotkey == prefer(cfg.hotkey, old.hotkey),
        r.display_window_hotkey == prefer(cfg.display_window_hotkey, old.display_window_hotkey),
        r.writing_hotkey == prefer(cfg.writing_hotkey, old.writing_hotkey),
        r.always_show_icons == prefer(cfg.always_show_icons, old.always_show_icons),
        r.hide_the_icon_in_the_dock == prefer(
            cfg.hide_the_icon_in_the_dock,
            old.hide_the_icon_in_the_dock,
        ),
        r.configured == prefer(cfg.configured, old.configured),
{
    Config {
        configured: prefer_exec(cfg.configured, old.configured),
        hotkey: prefer_exec(cfg.hotkey, old.hotkey),
        display_window_hotkey: prefer_exec(cfg.display_window_hotkey, old.display_window_hotkey),
        writing_hotkey: prefer_exec(cfg.writing_hotkey, old.writing_hotkey),
        always_show_icons: prefer_exec(cfg.always_show_icons, old.always_show_icons),
        hide_the_icon_in_the_dock: prefer_exec(
            cfg.hide_the_icon_in_the_dock,
            old.hide_the_icon_in_the_dock,
        ),
    }
}

} // verus!

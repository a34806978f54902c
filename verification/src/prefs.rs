//! Preferences of the client as a whole (not of a user), kept in a cell
//! that is filled once at start-up.

use vstd::prelude::*;

verus! {

/// Global preferences.
#[derive(Debug, Clone, Copy, PartialEq, Eq, Structural)]
pub struct GlobalPrefs {
    pub sound_effects_enabled: bool,
    pub minimal_banner_glitch_enabled: bool,
    pub desktop_notifications_enabled: bool,
}

impl GlobalPrefs {
    /// Everything enabled.
    pub fn default_prefs() -> (r: GlobalPrefs)
        ensures
            r.sound_effects_enabled,
            r.minimal_banner_glitch_enabled,
            r.desktop_notifications_enabled,
    {
        GlobalPrefs {
            sound_effects_enabled: true,
            minimal_banner_glitch_enabled: true,
            desktop_notifications_enabled: true,
        }
    }

    /// The preferences read from the preferences file, or the defaults
    /// when it could not be read or parsed (`parsed` is `None`).
    pub fn load(parsed: Option<GlobalPrefs>) -> (r: GlobalPrefs)
        ensures
            parsed matches Some(p) ==> r == p,
            parsed is None ==> r == (GlobalPrefs {
                sound_effects_enabled: true,
                minimal_banner_glitch_enabled: true,
                desktop_notifications_enabled: true,
            }),
    {
        match parsed {
            Some(p) => p,
            None => GlobalPrefs::default_prefs(),
        }
    }
}

impl Default for GlobalPrefs {
    fn default() -> (r: GlobalPrefs)
        ensures
            r.sound_effects_enabled,
            r.minimal_banner_glitch_enabled,
            r.desktop_notifications_enabled,
    {
        GlobalPrefs::default_prefs()
    }
}

/// The cell that holds the preferences once they are initialised.
#[derive(Debug)]
pub struct GlobalPrefsCell {
    pub value: Option<GlobalPrefs>,
}

impl GlobalPrefsCell {
    /// An empty cell.
    pub fn new() -> (r: GlobalPrefsCell)
        ensures
            r.value is None,
    {
        GlobalPrefsCell { value: None }
    }

    /// Whether the cell has been filled.
    pub fn is_initialized(&self) -> (r: bool)
        ensures
            r == self.value is Some,
    {
        self.value.is_some()
    }
}

/// What filling the cell `before` with `loaded` leaves: the loaded
/// preferences in an empty cell, a filled cell as it was.
pub open spec fn prefs_filled(before: GlobalPrefsCell, loaded: GlobalPrefs, after: GlobalPrefsCell) -> bool {
    &&& before.value is None ==> after.value == Some(loaded)
    &&& before.value is Some ==> after.value == before.value
}

/// Fills the cell with the loaded preferences; a cell already filled keeps
/// its value.
pub fn init_global_prefs(cell: &mut GlobalPrefsCell, loaded: GlobalPrefs)
    ensures
        prefs_filled(*old(cell), loaded, *final(cell)),
{
    if cell.value.is_none() {
        cell.value = Some(loaded);
    }
}

/// The cell has been filled, so its preferences can be read.
pub open spec fn prefs_readable(cell: GlobalPrefsCell) -> bool {
    cell.value is Some
}

/// The preferences of a filled cell.
pub fn global_prefs(cell: &GlobalPrefsCell) -> (r: &GlobalPrefs)
    requires
        prefs_readable(*cell),
    ensures
        *r == cell.value->0,
{
    cell.value.as_ref().unwrap()
}

/// The preferences of a filled cell, for changing.
pub fn global_prefs_mut(cell: &mut GlobalPrefsCell) -> (r: &mut GlobalPrefs)
    requires
        prefs_readable(*old(cell)),
    ensures
        *r == old(cell).value->0,
        final(cell).value == Some(*final(r)),
{
    cell.value.as_mut().unwrap()
}

} // verus!

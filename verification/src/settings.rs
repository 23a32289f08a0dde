//! What the application remembers between runs.

use vstd::prelude::*;
use vstd::std_specs::cmp::PartialEqSpecImpl;

verus! {

/// The user's settings: interface language, the folder that holds the
/// sprites, and the colour theme.
#[derive(Clone, Debug)]
pub struct Settings {
    pub language: String,
    pub sprites_path: String,
    pub mode: String,
}

impl Default for Settings {
    /// English, no sprites folder chosen yet, dark theme.
    fn default() -> (settings: Self)
        ensures
            settings.language@ == "en"@,
            settings.sprites_path@ == Seq::<char>::empty(),
            settings.mode@ == "dark"@,
    {
        Settings { language: "en".to_owned(), sprites_path: String::new(), mode: "dark".to_owned() }
    }
}

impl PartialEq for Settings {
    fn eq(&self, other: &Self) -> (equal: bool) {
        self.language == other.language && self.sprites_path == other.sprites_path && self.mode
            == other.mode
    }
}

impl PartialEqSpecImpl for Settings {
    open spec fn obeys_eq_spec() -> bool {
        true
    }

    open spec fn eq_spec(&self, other: &Self) -> bool {
        &&& self.language@ == other.language@
        &&& self.sprites_path@ == other.sprites_path@
        &&& self.mode@ == other.mode@
    }
}

impl Settings {
    /// Whether a sprites folder still has to be chosen.
    pub fn needs_sprites_path(&self) -> (missing: bool)
        ensures
            missing == (self.sprites_path@.len() == 0),
    {
        self.sprites_path.as_str().is_empty()
    }
}

} // verus!

//! The closed set of supported games and their capability predicates.

use vstd::prelude::*;

verus! {

/// A game whose plugin files this library can read.
#[derive(Clone, Copy, PartialEq, Eq, Structural, Debug, Hash)]
pub enum GameId {
    Morrowind,
    Oblivion,
    Fallout3,
    FalloutNV,
    Fallout4,
    Skyrim,
    SkyrimSE,
    Starfield,
}

impl GameId {
    /// Whether plugins for this game can be loaded as light plugins.
    pub fn supports_light_plugins(&self) -> (r: bool)
        ensures
            r == self.spec_supports_light_plugins(),
    {
        matches!(self, GameId::Fallout4 | GameId::SkyrimSE | GameId::Starfield)
    }

    pub open spec fn spec_supports_light_plugins(self) -> bool {
        self == GameId::Fallout4 || self == GameId::SkyrimSE || self == GameId::Starfield
    }

    /// Whether plugins for this game can be loaded as medium plugins.
    pub fn supports_medium_plugins(&self) -> (r: bool)
        ensures
            r == self.spec_supports_medium_plugins(),
    {
        matches!(self, GameId::Starfield)
    }

    pub open spec fn spec_supports_medium_plugins(self) -> bool {
        self == GameId::Starfield
    }
}

} // verus!

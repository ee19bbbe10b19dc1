//! The identifiers of the sound effects.

use vstd::prelude::*;

verus! {

/// The effects that the engine can be asked to play.
#[derive(Clone, Copy, Debug, PartialEq, Eq, Hash, Structural)]
pub enum SoundEffect {
    Startup,
    Click(usize),
    UserOption,
    Fertilised,
    NewSpore,
    NewMinion,
    DieMinion,
}

/// Codes of the effects that carry a number start here: above every `usize`.
pub const NUMBERED: u128 = 0x1_0000_0000_0000_0000;

impl SoundEffect {
    /// The number under which an effect is filed: no two effects share one.
    pub open spec fn code_of(self) -> u128 {
        match self {
            SoundEffect::Startup => 0,
            SoundEffect::UserOption => 1,
            SoundEffect::Fertilised => 2,
            SoundEffect::NewSpore => 3,
            SoundEffect::NewMinion => 4,
            SoundEffect::DieMinion => 5,
            SoundEffect::Click(n) => (NUMBERED + n) as u128,
        }
    }

    /// The number under which the effect is filed.
    pub fn code(&self) -> (code: u128)
        ensures
            code == self.code_of(),
    {
        match self {
            SoundEffect::Startup => 0,
            SoundEffect::UserOption => 1,
            SoundEffect::Fertilised => 2,
            SoundEffect::NewSpore => 3,
            SoundEffect::NewMinion => 4,
            SoundEffect::DieMinion => 5,
            SoundEffect::Click(n) => {
                let low: u128 = *n as u128;
                NUMBERED + low
            },
        }
    }

    /// Two effects with one code are the same effect.
    pub proof fn lemma_code_tells_apart(a: SoundEffect, b: SoundEffect)
        requires
            a.code_of() == b.code_of(),
        ensures
            a == b,
    {
    }
}

} // verus!

//! The numeric constants of the simulation, gathered as one value.
//!
//! Every rate and probability is in millionths, on the scale of
//! [`AMOUNT_ONE`].

use vstd::prelude::*;
use crate::cell::AMOUNT_ONE;

verus! {

/// The largest fraction that a cell may hand to each neighbour: with four
/// neighbours it then hands out no more than it holds.
pub const DIFFUSION_MAX: u32 = 250_000;

/// The configuration of the per-tick rules.
#[derive(Clone, Copy, Debug, PartialEq, Eq)]
pub struct Rules {
    /// The fraction of every amount that is lost at each tick.
    pub decay: u32,
    /// The fraction of a cell's decayed amount that goes to each in-bounds
    /// neighbour.
    pub diffusion: u32,
    /// An amount at or below this threshold vanishes.
    pub epsilon: u32,
    /// The probability that a stimulated creature dies.
    pub death_chance: u32,
    /// The probability that a creature that fed reproduces.
    pub birth_chance: u32,
    /// The probability that a creature that did not reproduce moves.
    pub move_chance: u32,
    /// The amount that a creature consumes from its own cell.
    pub appetite: u32,
    /// The amount that a creature leaves in its cell when it dies.
    pub deposit: u32,
    /// Whether a creature with nothing around it rests. Where this is off,
    /// an isolated creature takes its turn like any other.
    pub rest_when_isolated: bool,
}

impl Rules {
    /// No more than everything decays, and a cell hands out no more than it
    /// holds.
    pub open spec fn wf(&self) -> bool {
        self.decay <= AMOUNT_ONE && self.diffusion <= DIFFUSION_MAX
    }

    /// These rules with `decay` capped at `AMOUNT_ONE` and `diffusion` at
    /// `DIFFUSION_MAX`.
    pub open spec fn spec_clamped(&self) -> Rules {
        Rules {
            decay: if self.decay <= AMOUNT_ONE { self.decay } else { AMOUNT_ONE },
            diffusion: if self.diffusion <= DIFFUSION_MAX { self.diffusion } else { DIFFUSION_MAX },
            ..*self
        }
    }

    /// The default rules: slow decay, gentle diffusion, rare deaths, and
    /// rest for the isolated.
    pub open spec fn default_spec() -> Rules {
        Rules {
            decay: 20_000,
            diffusion: 50_000,
            epsilon: 1_000,
            death_chance: 5_000,
            birth_chance: 100_000,
            move_chance: 500_000,
            appetite: 100_000,
            deposit: 500_000,
            rest_when_isolated: true,
        }
    }

    /// Whether these rules are well formed.
    pub fn is_valid(&self) -> (b: bool)
        ensures
            b == self.wf(),
    {
        self.decay <= AMOUNT_ONE && self.diffusion <= DIFFUSION_MAX
    }

    /// These rules, made well formed by capping `decay` and `diffusion`.
    /// Well-formed rules are returned unchanged.
    #[verifier::when_used_as_spec(spec_clamped)]
    pub fn clamped(&self) -> (r: Rules)
        ensures
            r == self.spec_clamped(),
            r.wf(),
            self.wf() ==> r == *self,
    {
        Rules {
            decay: if self.decay <= AMOUNT_ONE { self.decay } else { AMOUNT_ONE },
            diffusion: if self.diffusion <= DIFFUSION_MAX { self.diffusion } else { DIFFUSION_MAX },
            epsilon: self.epsilon,
            death_chance: self.death_chance,
            birth_chance: self.birth_chance,
            move_chance: self.move_chance,
            appetite: self.appetite,
            deposit: self.deposit,
            rest_when_isolated: self.rest_when_isolated,
        }
    }

    /// Rules under which no cell ever changes: no decay, no diffusion, and
    /// creatures that neither die, feed, reproduce nor move.
    pub fn inert() -> (r: Rules)
        ensures
            r.wf(),
            r == (Rules {
                decay: 0,
                diffusion: 0,
                epsilon: 0,
                death_chance: 0,
                birth_chance: 0,
                move_chance: 0,
                appetite: 0,
                deposit: 0,
                rest_when_isolated: true,
            }),
    {
        Rules {
            decay: 0,
            diffusion: 0,
            epsilon: 0,
            death_chance: 0,
            birth_chance: 0,
            move_chance: 0,
            appetite: 0,
            deposit: 0,
            rest_when_isolated: true,
        }
    }
}

impl Default for Rules {
    /// A lively default: see [`Rules::default_spec`].
    fn default() -> (r: Rules)
        ensures
            r.wf(),
            r == Rules::default_spec(),
    {
        Rules {
            decay: 20_000,
            diffusion: 50_000,
            epsilon: 1_000,
            death_chance: 5_000,
            birth_chance: 100_000,
            move_chance: 500_000,
            appetite: 100_000,
            deposit: 500_000,
            rest_when_isolated: true,
        }
    }
}

} // verus!

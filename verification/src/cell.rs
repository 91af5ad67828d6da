//! What one grid position holds.

use vstd::prelude::*;

verus! {

/// The fixed-point scale: an amount, a probability or a rate of 1.0.
pub const AMOUNT_ONE: u32 = 1_000_000;

/// A display colour.
#[derive(Clone, Copy, Debug, PartialEq, Eq)]
pub struct Rgb {
    pub r: u8,
    pub g: u8,
    pub b: u8,
}

/// A discrete agent. It occupies at most one cell at a time.
#[derive(Clone, Copy, Debug, PartialEq, Eq)]
pub struct Creature {
    pub color: Rgb,
}

/// A sample of the diffusible field: a colour and a concentration.
#[derive(Clone, Copy, Debug, PartialEq, Eq)]
pub struct Substance {
    pub color: Rgb,
    /// The concentration, in millionths: at most `AMOUNT_ONE`.
    pub amount: u32,
}

impl Substance {
    /// The concentration lies in `[0, 1]`.
    pub open spec fn wf(&self) -> bool {
        self.amount <= AMOUNT_ONE
    }

    /// A sample of the given colour. An amount above `AMOUNT_ONE` is clamped
    /// to it.
    pub fn new(color: Rgb, amount: u32) -> (s: Substance)
        ensures
            s.wf(),
            s.color == color,
            s.amount == if amount <= AMOUNT_ONE { amount } else { AMOUNT_ONE },
    {
        Substance { color, amount: if amount <= AMOUNT_ONE { amount } else { AMOUNT_ONE } }
    }
}

/// One grid position: an optional occupant and an optional field sample. The
/// two slots are independent.
#[derive(Clone, Copy, Debug, PartialEq, Eq)]
pub struct Cell {
    pub occupant: Option<Creature>,
    pub field: Option<Substance>,
}

impl Cell {
    /// The field sample, if any, is well formed.
    pub open spec fn wf(&self) -> bool {
        self.field matches Some(s) ==> s.wf()
    }

    /// The concentration of the field at this cell; 0 where there is none.
    pub open spec fn spec_amount(&self) -> u32 {
        match self.field {
            Some(s) => s.amount,
            None => 0,
        }
    }

    /// A cell with neither occupant nor field.
    pub fn empty() -> (c: Cell)
        ensures
            c.occupant is None,
            c.field is None,
    {
        Cell { occupant: None, field: None }
    }

    /// The concentration of the field at this cell; 0 where there is none.
    #[verifier::when_used_as_spec(spec_amount)]
    pub fn amount(&self) -> (a: u32)
        ensures
            a == self.spec_amount(),
    {
        match self.field {
            Some(s) => s.amount,
            None => 0,
        }
    }
}

} // verus!

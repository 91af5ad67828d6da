//! The field phase: decay and diffusion of the substances.
//!
//! The phase reads the amounts of the previous tick and writes a fresh
//! buffer, so its result does not depend on the order in which cells are
//! visited. At each cell the amount first decays; a fixed fraction of what is
//! left then goes to each in-bounds neighbour. A cell on an edge has fewer
//! neighbours and keeps what it has nobody to hand to: nothing leaves the
//! grid. All divisions round down, and an amount is capped at `AMOUNT_ONE`.

use vstd::prelude::*;
use crate::cell::{Cell, Rgb, Substance, AMOUNT_ONE};
use crate::grid::{
    has_down, has_left, has_right, has_up, lemma_column_successor, lemma_corner_columns, sides_of,
    Sides,
};
use crate::rules::Rules;
use crate::sums::{
    lemma_sum_add, lemma_sum_equal, lemma_sum_monotone, lemma_sum_shift, lemma_sum_sub, sum_to,
};

verus! {

/// What is left of an amount after one tick of decay.
pub open spec fn decayed(rules: Rules, amount: int) -> int {
    amount * (AMOUNT_ONE - rules.decay) / (AMOUNT_ONE as int)
}

/// What a cell holding `amount` hands to each of its in-bounds neighbours.
pub open spec fn share(rules: Rules, amount: int) -> int {
    decayed(rules, amount) * rules.diffusion / (AMOUNT_ONE as int)
}

/// The share handed out by the cell at index `i`; 0 outside the grid.
pub open spec fn share_at(rules: Rules, cells: Seq<Cell>, i: int) -> int {
    if 0 <= i < cells.len() {
        share(rules, cells[i].spec_amount() as int)
    } else {
        0
    }
}

/// What the cell at index `i` hands out in total: one share per in-bounds
/// neighbour.
pub open spec fn outflow(rules: Rules, width: int, cells: Seq<Cell>, i: int) -> int {
    let count = cells.len() as int;
    let s = share_at(rules, cells, i);
    (if has_up(width, count, i) { s } else { 0 })
    + (if has_left(width, count, i) { s } else { 0 })
    + (if has_right(width, count, i) { s } else { 0 })
    + (if has_down(width, count, i) { s } else { 0 })
}

/// What the cell at index `i` receives: the share of each in-bounds
/// neighbour.
pub open spec fn inflow(rules: Rules, width: int, cells: Seq<Cell>, i: int) -> int {
    let count = cells.len() as int;
    (if has_up(width, count, i) { share_at(rules, cells, i - width) } else { 0 })
    + (if has_left(width, count, i) { share_at(rules, cells, i - 1) } else { 0 })
    + (if has_right(width, count, i) { share_at(rules, cells, i + 1) } else { 0 })
    + (if has_down(width, count, i) { share_at(rules, cells, i + width) } else { 0 })
}

/// The amount at index `i` after the phase, before the threshold is applied:
/// the decayed remainder, less what was handed out, plus what was received,
/// capped at `AMOUNT_ONE`.
pub open spec fn settled_amount(rules: Rules, width: int, cells: Seq<Cell>, i: int) -> int {
    let raw = decayed(rules, cells[i].spec_amount() as int) - outflow(rules, width, cells, i)
        + inflow(rules, width, cells, i);
    if raw > AMOUNT_ONE {
        AMOUNT_ONE as int
    } else {
        raw
    }
}

/// The colour of the cell at index `i`, or black where it has no substance.
pub open spec fn color_at(cells: Seq<Cell>, i: int) -> Rgb {
    match cells[i].field {
        Some(s) => s.color,
        None => Rgb { r: 0, g: 0, b: 0 },
    }
}

/// The colour of the substance at index `i` after the phase. A substance
/// keeps its colour. A cell that had none takes the colour of the first
/// neighbour, in the order up, left, right, down, that hands it anything.
pub open spec fn settled_color(rules: Rules, width: int, cells: Seq<Cell>, i: int) -> Rgb {
    let count = cells.len() as int;
    if cells[i].field is Some {
        color_at(cells, i)
    } else if has_up(width, count, i) && share_at(rules, cells, i - width) > 0 {
        color_at(cells, i - width)
    } else if has_left(width, count, i) && share_at(rules, cells, i - 1) > 0 {
        color_at(cells, i - 1)
    } else if has_right(width, count, i) && share_at(rules, cells, i + 1) > 0 {
        color_at(cells, i + 1)
    } else if has_down(width, count, i) && share_at(rules, cells, i + width) > 0 {
        color_at(cells, i + width)
    } else {
        Rgb { r: 0, g: 0, b: 0 }
    }
}

/// The cell at index `i` after the phase. Its occupant is untouched; its
/// field is empty where the settled amount does not exceed the threshold.
pub open spec fn settled_cell(rules: Rules, width: int, cells: Seq<Cell>, i: int) -> Cell {
    let amount = settled_amount(rules, width, cells, i);
    Cell {
        occupant: cells[i].occupant,
        field: if amount > rules.epsilon {
            Some(Substance { color: settled_color(rules, width, cells, i), amount: amount as u32 })
        } else {
            None
        },
    }
}

/// The cells after one field phase over rows of `width`.
pub open spec fn field_phase(rules: Rules, width: int, cells: Seq<Cell>) -> Seq<Cell> {
    Seq::new(cells.len(), |i: int| settled_cell(rules, width, cells, i))
}

/// The premises under which the phase is defined: well-formed rules, and
/// well-formed cells that fill `height` rows of `width`.
pub open spec fn phase_inputs_wf(rules: Rules, width: int, height: int, cells: Seq<Cell>) -> bool {
    &&& rules.wf()
    &&& width > 0
    &&& height > 0
    &&& cells.len() == width * height
    &&& forall|i: int| 0 <= i < cells.len() ==> (#[trigger] cells[i]).wf()
}

/// Decay and share stay within the amount they come from, and four shares
/// never exceed what is left after decay.
pub proof fn lemma_share_bounds(rules: Rules, amount: int)
    requires
        rules.wf(),
        0 <= amount <= AMOUNT_ONE,
    ensures
        0 <= decayed(rules, amount) <= amount,
        0 <= share(rules, amount),
        4 * share(rules, amount) <= decayed(rules, amount),
{
    let keep = AMOUNT_ONE - rules.decay;
    let one = AMOUNT_ONE as int;
    assert(0 <= amount * keep <= amount * one) by (nonlinear_arith)
        requires
            0 <= amount,
            0 <= keep <= one,
    ;
    let d = decayed(rules, amount);
    assert(0 <= d <= amount) by (nonlinear_arith)
        requires
            0 <= amount * keep <= amount * one,
            one == 1_000_000,
            d == amount * keep / one,
    ;
    let f = rules.diffusion as int;
    assert(0 <= d * f <= d * 250_000) by (nonlinear_arith)
        requires
            0 <= d,
            0 <= f <= 250_000,
    ;
    let s = share(rules, amount);
    assert(0 <= s && 4 * s <= d) by (nonlinear_arith)
        requires
            0 <= d * f <= d * 250_000,
            s == d * f / 1_000_000,
    ;
}

/// The total amount of substance on the grid.
pub open spec fn total_amount(cells: Seq<Cell>) -> int {
    sum_to(|i: int| cells[i].spec_amount() as int, cells.len() as int)
}

/// Diffusion moves substance without making any: what all cells receive is
/// what all cells hand out.
pub proof fn lemma_flows_balance(rules: Rules, width: int, height: int, cells: Seq<Cell>)
    requires
        phase_inputs_wf(rules, width, height, cells),
    ensures
        sum_to(|i: int| inflow(rules, width, cells, i), cells.len() as int) == sum_to(
            |i: int| outflow(rules, width, cells, i),
            cells.len() as int,
        ),
{
    let n = cells.len() as int;
    let out_up = |i: int| if has_up(width, n, i) { share_at(rules, cells, i) } else { 0int };
    let out_left = |i: int| if has_left(width, n, i) { share_at(rules, cells, i) } else { 0int };
    let out_right = |i: int| if has_right(width, n, i) { share_at(rules, cells, i) } else { 0int };
    let out_down = |i: int| if has_down(width, n, i) { share_at(rules, cells, i) } else { 0int };
    let in_up = |i: int| if has_up(width, n, i) { share_at(rules, cells, i - width) } else { 0int };
    let in_left = |i: int| if has_left(width, n, i) { share_at(rules, cells, i - 1) } else { 0int };
    let in_right = |i: int|
        if has_right(width, n, i) {
            share_at(rules, cells, i + 1)
        } else {
            0int
        };
    let in_down = |i: int|
        if has_down(width, n, i) {
            share_at(rules, cells, i + width)
        } else {
            0int
        };
    lemma_corner_columns(width, height);
    assert forall|i: int| 0 <= i < n - 1 implies out_left(i + 1) == #[trigger] in_right(i) by {
        lemma_column_successor(width, i);
    }
    lemma_sum_shift(out_left, in_right, 1, n);
    assert forall|i: int| 0 <= i < n - 1 implies in_left(i + 1) == #[trigger] out_right(i) by {
        lemma_column_successor(width, i);
    }
    lemma_sum_shift(in_left, out_right, 1, n);
    lemma_sum_shift(in_up, out_down, width, n);
    lemma_sum_shift(out_up, in_down, width, n);
    let in_rows = |i: int| in_up(i) + in_down(i);
    let in_columns = |i: int| in_left(i) + in_right(i);
    let out_rows = |i: int| out_up(i) + out_down(i);
    let out_columns = |i: int| out_left(i) + out_right(i);
    let ins = |i: int| inflow(rules, width, cells, i);
    let outs = |i: int| outflow(rules, width, cells, i);
    lemma_sum_add(in_up, in_down, in_rows, n);
    lemma_sum_add(in_left, in_right, in_columns, n);
    lemma_sum_add(in_rows, in_columns, ins, n);
    lemma_sum_add(out_up, out_down, out_rows, n);
    lemma_sum_add(out_left, out_right, out_columns, n);
    lemma_sum_add(out_rows, out_columns, outs, n);
}

/// The field phase never adds substance: the total amount after it is at
/// most the total before it, and every amount stays within `[0, 1]`.
pub proof fn lemma_field_phase_mass_bound(rules: Rules, width: int, height: int, cells: Seq<Cell>)
    requires
        phase_inputs_wf(rules, width, height, cells),
    ensures
        total_amount(field_phase(rules, width, cells)) <= total_amount(cells),
        forall|i: int|
            0 <= i < cells.len() ==> 0 <= (#[trigger] field_phase(
                rules,
                width,
                cells,
            )[i]).spec_amount() <= AMOUNT_ONE,
{
    let n = cells.len() as int;
    let next = field_phase(rules, width, cells);
    let before = |i: int| cells[i].spec_amount() as int;
    let after = |i: int| next[i].spec_amount() as int;
    let kept = |i: int| decayed(rules, cells[i].spec_amount() as int);
    let ins = |i: int| inflow(rules, width, cells, i);
    let outs = |i: int| outflow(rules, width, cells, i);
    let retained = |i: int| kept(i) - outs(i);
    let raw = |i: int| retained(i) + ins(i);
    assert forall|j: int| 0 <= share_at(rules, cells, j) by {
        if 0 <= j < n {
            assert(cells[j].wf());
            lemma_share_bounds(rules, cells[j].spec_amount() as int);
        }
    }
    assert forall|i: int| 0 <= i < n implies #[trigger] after(i) <= raw(i) by {
        assert(cells[i].wf());
        lemma_share_bounds(rules, cells[i].spec_amount() as int);
        assert(0 <= share_at(rules, cells, i - width));
        assert(0 <= share_at(rules, cells, i - 1));
        assert(0 <= share_at(rules, cells, i + 1));
        assert(0 <= share_at(rules, cells, i + width));
    }
    assert forall|i: int| 0 <= i < n implies #[trigger] kept(i) <= before(i) by {
        assert(cells[i].wf());
        lemma_share_bounds(rules, cells[i].spec_amount() as int);
    }
    lemma_sum_monotone(after, raw, n);
    lemma_sum_monotone(kept, before, n);
    lemma_sum_sub(kept, outs, retained, n);
    lemma_sum_add(retained, ins, raw, n);
    lemma_flows_balance(rules, width, height, cells);
    lemma_sum_equal(|i: int| next[i].spec_amount() as int, after, next.len() as int);
    lemma_sum_equal(|i: int| cells[i].spec_amount() as int, before, n);
    lemma_sum_equal(|i: int| inflow(rules, width, cells, i), ins, n);
    lemma_sum_equal(|i: int| outflow(rules, width, cells, i), outs, n);
}

fn decay_of(rules: &Rules, amount: u32) -> (d: u32)
    requires
        rules.wf(),
        amount <= AMOUNT_ONE,
    ensures
        d == decayed(*rules, amount as int),
        d <= amount,
{
    proof {
        lemma_share_bounds(*rules, amount as int);
    }
    let keep: u64 = (AMOUNT_ONE - rules.decay) as u64;
    assert(amount * keep <= 1_000_000 * 1_000_000) by (nonlinear_arith)
        requires
            0 <= amount <= 1_000_000,
            0 <= keep <= 1_000_000,
    ;
    ((amount as u64) * keep / (AMOUNT_ONE as u64)) as u32
}

fn share_of(rules: &Rules, amount: u32) -> (s: u32)
    requires
        rules.wf(),
        amount <= AMOUNT_ONE,
    ensures
        s == share(*rules, amount as int),
        4 * s <= decayed(*rules, amount as int),
{
    proof {
        lemma_share_bounds(*rules, amount as int);
    }
    let d: u32 = decay_of(rules, amount);
    assert(d * rules.diffusion <= 1_000_000 * 250_000) by (nonlinear_arith)
        requires
            0 <= d <= 1_000_000,
            0 <= rules.diffusion <= 250_000,
    ;
    ((d as u64) * (rules.diffusion as u64) / (AMOUNT_ONE as u64)) as u32
}

fn color_of(cell: &Cell) -> (c: Rgb)
    ensures
        c == match cell.field {
            Some(s) => s.color,
            None => Rgb { r: 0, g: 0, b: 0 },
        },
{
    match cell.field {
        Some(s) => s.color,
        None => Rgb { r: 0, g: 0, b: 0 },
    }
}

/// The cell at index `i` after the phase, given the share of every cell.
fn settle(
    rules: &Rules,
    width: usize,
    height: usize,
    cells: &Vec<Cell>,
    shares: &Vec<u32>,
    i: usize,
) -> (settled: Cell)
    requires
        phase_inputs_wf(*rules, width as int, height as int, cells@),
        shares@.len() == cells@.len(),
        forall|k: int|
            0 <= k < cells@.len() ==> (#[trigger] shares@[k]) == share_at(*rules, cells@, k),
        i < cells@.len(),
    ensures
        settled == settled_cell(*rules, width as int, cells@, i as int),
        settled.wf(),
{
    let count: usize = cells.len();
    assert(count == width * height);
    let cell: Cell = cells[i];
    let sides: Sides = sides_of(width, height, i);
    let up: bool = sides.up;
    let left: bool = sides.left;
    let right: bool = sides.right;
    let down: bool = sides.down;
    proof {
        assert(cell.wf());
        lemma_share_bounds(*rules, cell.spec_amount() as int);
    }
    let own: u64 = shares[i] as u64;
    let kept: u64 = decay_of(rules, cell.amount()) as u64;
    let from_up: u64 = if up { shares[i - width] as u64 } else { 0 };
    let from_left: u64 = if left { shares[i - 1] as u64 } else { 0 };
    let from_right: u64 = if right { shares[i + 1] as u64 } else { 0 };
    let from_down: u64 = if down { shares[i + width] as u64 } else { 0 };
    let handed: u64 = (if up { own } else { 0 }) + (if left { own } else { 0 }) + (if right {
        own
    } else {
        0
    }) + (if down { own } else { 0 });
    assert(handed == outflow(*rules, width as int, cells@, i as int));
    assert(from_up + from_left + from_right + from_down == inflow(
        *rules,
        width as int,
        cells@,
        i as int,
    ));
    let raw: u64 = kept - handed + from_up + from_left + from_right + from_down;
    let amount: u32 = if raw > AMOUNT_ONE as u64 { AMOUNT_ONE } else { raw as u32 };
    assert(amount == settled_amount(*rules, width as int, cells@, i as int));
    let color: Rgb = if cell.field.is_some() {
        color_of(&cell)
    } else if up && shares[i - width] > 0 {
        color_of(&cells[i - width])
    } else if left && shares[i - 1] > 0 {
        color_of(&cells[i - 1])
    } else if right && shares[i + 1] > 0 {
        color_of(&cells[i + 1])
    } else if down && shares[i + width] > 0 {
        color_of(&cells[i + width])
    } else {
        Rgb { r: 0, g: 0, b: 0 }
    };
    assert(color == settled_color(*rules, width as int, cells@, i as int));
    let field: Option<Substance> = if amount > rules.epsilon {
        Some(Substance { color, amount })
    } else {
        None
    };
    Cell { occupant: cell.occupant, field }
}

/// Runs one field phase over `cells`, which fill `height` rows of `width`,
/// and returns the new buffer. The input is only read. The new buffer never
/// holds more substance than the old one.
pub fn diffuse(rules: &Rules, width: usize, height: usize, cells: &Vec<Cell>) -> (next: Vec<Cell>)
    requires
        phase_inputs_wf(*rules, width as int, height as int, cells@),
    ensures
        next@ == field_phase(*rules, width as int, cells@),
        next@.len() == cells@.len(),
        forall|i: int| 0 <= i < next@.len() ==> (#[trigger] next@[i]).wf(),
        total_amount(next@) <= total_amount(cells@),
{
    proof {
        lemma_field_phase_mass_bound(*rules, width as int, height as int, cells@);
    }
    let count: usize = cells.len();
    let mut shares: Vec<u32> = Vec::new();
    let mut j: usize = 0;
    while j < count
        invariant
            j <= count,
            count == cells@.len(),
            rules.wf(),
            forall|i: int| 0 <= i < cells@.len() ==> (#[trigger] cells@[i]).wf(),
            shares@.len() == j,
            forall|k: int| 0 <= k < j ==> (#[trigger] shares@[k]) == share_at(*rules, cells@, k),
        decreases count - j,
    {
        assert(cells@[j as int].wf());
        shares.push(share_of(rules, cells[j].amount()));
        j = j + 1;
    }
    let mut next: Vec<Cell> = Vec::new();
    let mut i: usize = 0;
    while i < count
        invariant
            i <= count,
            count == cells@.len(),
            phase_inputs_wf(*rules, width as int, height as int, cells@),
            shares@.len() == count,
            forall|k: int|
                0 <= k < count ==> (#[trigger] shares@[k]) == share_at(*rules, cells@, k),
            next@.len() == i,
            forall|k: int|
                0 <= k < i ==> (#[trigger] next@[k]) == settled_cell(
                    *rules,
                    width as int,
                    cells@,
                    k,
                ),
            forall|k: int| 0 <= k < i ==> (#[trigger] next@[k]).wf(),
        decreases count - i,
    {
        next.push(settle(rules, width, height, cells, &shares, i));
        i = i + 1;
    }
    assert(next@ =~= field_phase(*rules, width as int, cells@));
    next
}

} // verus!
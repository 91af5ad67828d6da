//! The occupant phase: every creature acts once, in row-major order.
//!
//! The phase works against a snapshot of the occupancy taken before it
//! begins: exactly the cells occupied then are resolved, in row-major order,
//! so a creature that moves or is born into a cell not yet visited is not
//! resolved again in the same tick.
//!
//! A creature is *isolated* when its own cell holds no substance and no
//! neighbour holds a creature or a substance. Under rules that let the
//! isolated rest, an isolated creature does nothing and uses no randomness.
//! Any other creature uses exactly four draws, in this order: whether it
//! dies, whether it reproduces, whether it moves, and which neighbour it
//! picks.
//!
//! - A creature that dies leaves its cell and deposits substance there.
//! - A creature that lives feeds on the substance of its own cell.
//! - One that fed may reproduce: its offspring appears in a vacant
//!   neighbour, picked among all of them.
//! - Otherwise it may move: to a vacant neighbour holding the most substance,
//!   picked among those that tie.
//!
//! A target is always a cell that is vacant at that moment, so where two
//! creatures want the same cell the one resolved first takes it.

use vstd::prelude::*;
use crate::cell::{Cell, Creature, Rgb, Substance, AMOUNT_ONE};
use crate::field::phase_inputs_wf;
use crate::grid::{
    has_down, has_left, has_right, has_up, lemma_corner_columns, lemma_right_neighbor_in_grid,
    sides_of, Sides,
};
use crate::random::{draw_bool, draw_u64, next_state, RandomSource};
use crate::rules::Rules;
use crate::sums::{lemma_sum_change_one, sum_to};

verus! {

/// What one creature does in one tick.
#[derive(Clone, Copy, Debug, PartialEq, Eq)]
pub enum Action {
    /// Nothing happens and no randomness is used.
    Rest,
    /// The creature dies.
    Die,
    /// The creature feeds and stays where it is.
    Stay,
    /// The creature feeds, and its offspring appears at the index `to`.
    Reproduce { to: usize },
    /// The creature feeds and moves to the index `to`.
    Move { to: usize },
}

/// The cells and the generator's state at one point of the phase.
pub struct PhaseState {
    pub cells: Seq<Cell>,
    pub rng: u64,
}

/// The index `j`, listed or not.
pub open spec fn listed(keep: bool, j: int) -> Seq<usize> {
    if keep {
        seq![j as usize]
    } else {
        Seq::empty()
    }
}

/// The in-bounds neighbours of the cell at index `i` that satisfy `keep`, in
/// the order up, left, right, down.
pub open spec fn neighbors_where(
    width: int,
    cells: Seq<Cell>,
    i: int,
    keep: spec_fn(int) -> bool,
) -> Seq<usize> {
    let count = cells.len() as int;
    listed(has_up(width, count, i) && keep(i - width), i - width) + listed(
        has_left(width, count, i) && keep(i - 1),
        i - 1,
    ) + listed(has_right(width, count, i) && keep(i + 1), i + 1) + listed(
        has_down(width, count, i) && keep(i + width),
        i + width,
    )
}

/// Whether a cell holds anything at all.
pub open spec fn busy(cell: Cell) -> bool {
    cell.occupant is Some || cell.field is Some
}

/// Whether the cell at index `i` has no substance of its own and no
/// neighbour that holds anything.
pub open spec fn isolated(width: int, cells: Seq<Cell>, i: int) -> bool {
    cells[i].field is None && neighbors_where(width, cells, i, |j: int| busy(cells[j])).len() == 0
}

/// Whether a creature at index `i` rests: it is isolated, and the rules let
/// the isolated rest.
pub open spec fn rests(rules: Rules, width: int, cells: Seq<Cell>, i: int) -> bool {
    rules.rest_when_isolated && isolated(width, cells, i)
}

/// The vacant neighbours of the cell at index `i`.
pub open spec fn vacancies(width: int, cells: Seq<Cell>, i: int) -> Seq<usize> {
    neighbors_where(width, cells, i, |j: int| cells[j].occupant is None)
}

/// The amount at index `j` if that cell is there and vacant, and -1 if not.
pub open spec fn vacant_amount(cells: Seq<Cell>, there: bool, j: int) -> int {
    if there && cells[j].occupant is None {
        cells[j].spec_amount() as int
    } else {
        -1
    }
}

pub open spec fn larger(a: int, b: int) -> int {
    if a >= b {
        a
    } else {
        b
    }
}

/// The greatest amount held by a vacant neighbour of the cell at index `i`;
/// -1 where it has none.
pub open spec fn richest_amount(width: int, cells: Seq<Cell>, i: int) -> int {
    let count = cells.len() as int;
    larger(
        larger(
            vacant_amount(cells, has_up(width, count, i), i - width),
            vacant_amount(cells, has_left(width, count, i), i - 1),
        ),
        larger(
            vacant_amount(cells, has_right(width, count, i), i + 1),
            vacant_amount(cells, has_down(width, count, i), i + width),
        ),
    )
}

/// The vacant neighbours of the cell at index `i` that hold the most
/// substance.
pub open spec fn richest_vacancies(width: int, cells: Seq<Cell>, i: int) -> Seq<usize> {
    neighbors_where(
        width,
        cells,
        i,
        |j: int| cells[j].occupant is None && cells[j].spec_amount() == richest_amount(width, cells, i),
    )
}

/// Whether a creature in this cell finds anything to eat.
pub open spec fn feeds(rules: Rules, cell: Cell) -> bool {
    rules.appetite > 0 && cell.spec_amount() > 0
}

/// The member of a non-empty list that a 64-bit draw picks.
pub open spec fn picked(list: Seq<usize>, draw: u64) -> usize {
    list[(draw % (list.len() as u64)) as int]
}

/// What the creature at index `i` does, given the cells and the generator's
/// state as they are when its turn comes.
pub open spec fn decision(rules: Rules, width: int, cells: Seq<Cell>, rng: u64, i: int) -> Action {
    let second = next_state(rng);
    let third = next_state(second);
    let fourth = next_state(third);
    let all = vacancies(width, cells, i);
    let best = richest_vacancies(width, cells, i);
    if cells[i].occupant is None || rests(rules, width, cells, i) {
        Action::Rest
    } else if draw_bool(rng, rules.death_chance) {
        Action::Die
    } else if feeds(rules, cells[i]) && draw_bool(second, rules.birth_chance) && all.len() > 0 {
        Action::Reproduce { to: picked(all, draw_u64(fourth)) }
    } else if draw_bool(third, rules.move_chance) && best.len() > 0 {
        Action::Move { to: picked(best, draw_u64(fourth)) }
    } else {
        Action::Stay
    }
}

/// The generator's state after a creature took the given action: four steps
/// on, unless it rested.
pub open spec fn rng_after(rng: u64, action: Action) -> u64 {
    if action is Rest {
        rng
    } else {
        next_state(next_state(next_state(next_state(rng))))
    }
}

/// A field after a creature fed on it: less by the appetite, or by all of it
/// if that is less, and gone where no more than the threshold is left. A
/// creature that eats nothing leaves the field as it is.
pub open spec fn grazed_field(rules: Rules, field: Option<Substance>) -> Option<Substance> {
    match field {
        Some(s) => {
            let eaten = if s.amount <= rules.appetite {
                s.amount
            } else {
                rules.appetite
            };
            if eaten == 0 {
                field
            } else if s.amount - eaten > rules.epsilon {
                Some(Substance { color: s.color, amount: (s.amount - eaten) as u32 })
            } else {
                None
            }
        },
        None => None,
    }
}

/// A field after a creature of the given colour died on it: more by the
/// deposit, up to `AMOUNT_ONE`, in the colour it had, or in the creature's
/// where it had none; gone where no more than the threshold results. A
/// deposit of 0 leaves the field as it is.
pub open spec fn enriched_field(rules: Rules, field: Option<Substance>, color: Rgb) -> Option<
    Substance,
> {
    let held = match field {
        Some(s) => s.amount as int,
        None => 0,
    };
    let total = if held + rules.deposit > AMOUNT_ONE {
        AMOUNT_ONE as int
    } else {
        held + rules.deposit
    };
    if rules.deposit == 0 {
        field
    } else if total > rules.epsilon {
        Some(
            Substance {
                color: match field {
                    Some(s) => s.color,
                    None => color,
                },
                amount: total as u32,
            },
        )
    } else {
        None
    }
}

/// The offspring of a creature: its colour with the channels rotated.
pub open spec fn offspring(parent: Creature) -> Creature {
    Creature { color: Rgb { r: parent.color.g, g: parent.color.b, b: parent.color.r } }
}

/// The cells after the creature at index `i` took the given action. Where
/// the cell holds no creature nothing changes.
pub open spec fn applied(rules: Rules, cells: Seq<Cell>, i: int, action: Action) -> Seq<Cell> {
    match cells[i].occupant {
        None => cells,
        Some(creature) => {
            let fed = Cell { occupant: cells[i].occupant, field: grazed_field(rules, cells[i].field) };
            match action {
                Action::Rest => cells,
                Action::Die => cells.update(
                    i,
                    Cell {
                        occupant: None,
                        field: enriched_field(rules, cells[i].field, creature.color),
                    },
                ),
                Action::Stay => cells.update(i, fed),
                Action::Reproduce { to } => cells.update(i, fed).update(
                    to as int,
                    Cell { occupant: Some(offspring(creature)), field: cells[to as int].field },
                ),
                Action::Move { to } => cells.update(i, Cell { occupant: None, field: fed.field }).update(
                    to as int,
                    Cell { occupant: Some(creature), field: cells[to as int].field },
                ),
            }
        },
    }
}

/// The state after the creature at index `i` had its turn.
pub open spec fn resolve(rules: Rules, width: int, state: PhaseState, i: int) -> PhaseState {
    let action = decision(rules, width, state.cells, state.rng, i);
    PhaseState {
        cells: applied(rules, state.cells, i, action),
        rng: rng_after(state.rng, action),
    }
}

/// The state after the turns of the creatures that the snapshot shows at the
/// indices below `k`.
pub open spec fn resolve_upto(
    rules: Rules,
    width: int,
    snapshot: Seq<Cell>,
    state: PhaseState,
    k: int,
) -> PhaseState
    decreases k,
{
    if k <= 0 {
        state
    } else {
        let before = resolve_upto(rules, width, snapshot, state, k - 1);
        if snapshot[k - 1].occupant is Some {
            resolve(rules, width, before, k - 1)
        } else {
            before
        }
    }
}

/// The state after one occupant phase.
pub open spec fn occupant_phase(rules: Rules, width: int, cells: Seq<Cell>, rng: u64) -> PhaseState {
    resolve_upto(rules, width, cells, PhaseState { cells, rng }, cells.len() as int)
}

/// The number of creatures on the grid.
pub open spec fn population(cells: Seq<Cell>) -> int {
    sum_to(|i: int| if cells[i].occupant is Some { 1int } else { 0int }, cells.len() as int)
}

/// By how much an action changes the number of creatures.
pub open spec fn population_change(action: Action) -> int {
    match action {
        Action::Die => -1,
        Action::Reproduce { .. } => 1,
        _ => 0,
    }
}

/// The target of an action, where it has one, is a vacant cell of the grid
/// other than the cell at index `i`.
pub open spec fn target_is_vacant(cells: Seq<Cell>, i: int, action: Action) -> bool {
    match action {
        Action::Reproduce { to } => to < cells.len() && to != i && cells[to as int].occupant is None,
        Action::Move { to } => to < cells.len() && to != i && cells[to as int].occupant is None,
        _ => true,
    }
}

/// The net change of the number of creatures over the turns of the creatures
/// that the snapshot shows at the indices below `k`.
pub open spec fn growth_upto(
    rules: Rules,
    width: int,
    snapshot: Seq<Cell>,
    state: PhaseState,
    k: int,
) -> int
    decreases k,
{
    if k <= 0 {
        0
    } else {
        let before = resolve_upto(rules, width, snapshot, state, k - 1);
        growth_upto(rules, width, snapshot, state, k - 1) + if snapshot[k - 1].occupant is Some {
            population_change(decision(rules, width, before.cells, before.rng, k - 1))
        } else {
            0
        }
    }
}

/// Every neighbour that `neighbors_where` lists is a cell of the grid, other
/// than the cell itself, that satisfies the condition.
pub proof fn lemma_neighbors_where(
    width: int,
    height: int,
    cells: Seq<Cell>,
    i: int,
    keep: spec_fn(int) -> bool,
)
    requires
        width > 0,
        height > 0,
        cells.len() == width * height,
        cells.len() <= usize::MAX,
        0 <= i < cells.len(),
    ensures
        neighbors_where(width, cells, i, keep).len() <= 4,
        forall|k: int|
            0 <= k < neighbors_where(width, cells, i, keep).len() ==> {
                let j = #[trigger] neighbors_where(width, cells, i, keep)[k];
                j < cells.len() && j != i && keep(j as int)
            },
{
    lemma_corner_columns(width, height);
    if i % width < width - 1 {
        lemma_right_neighbor_in_grid(width, height, i);
    }
}

/// A creature only ever targets a vacant cell of the grid other than its
/// own.
pub proof fn lemma_decision_target(
    rules: Rules,
    width: int,
    height: int,
    cells: Seq<Cell>,
    rng: u64,
    i: int,
)
    requires
        width > 0,
        height > 0,
        cells.len() == width * height,
        cells.len() <= usize::MAX,
        0 <= i < cells.len(),
    ensures
        target_is_vacant(cells, i, decision(rules, width, cells, rng, i)),
{
    let all = vacancies(width, cells, i);
    let best = richest_vacancies(width, cells, i);
    let draw = draw_u64(next_state(next_state(next_state(rng))));
    lemma_neighbors_where(width, height, cells, i, |j: int| cells[j].occupant is None);
    lemma_neighbors_where(
        width,
        height,
        cells,
        i,
        |j: int| cells[j].occupant is None && cells[j].spec_amount() == richest_amount(width, cells, i),
    );
    if all.len() > 0 {
        let k = (draw % (all.len() as u64)) as int;
        assert(0 <= k < all.len());
        assert(picked(all, draw) == all[k]);
    }
    if best.len() > 0 {
        let k = (draw % (best.len() as u64)) as int;
        assert(0 <= k < best.len());
        assert(picked(best, draw) == best[k]);
    }
}

/// Carrying out an action keeps the grid's size and the cells well formed,
/// and changes the number of creatures by exactly what the action says: no
/// creature is lost or doubled, because a target is vacant.
pub proof fn lemma_apply_population(rules: Rules, cells: Seq<Cell>, i: int, action: Action)
    requires
        0 <= i < cells.len(),
        forall|k: int| 0 <= k < cells.len() ==> (#[trigger] cells[k]).wf(),
        target_is_vacant(cells, i, action),
        cells[i].occupant is None ==> action is Rest,
    ensures
        applied(rules, cells, i, action).len() == cells.len(),
        forall|k: int|
            0 <= k < cells.len() ==> (#[trigger] applied(rules, cells, i, action)[k]).wf(),
        population(applied(rules, cells, i, action)) == population(cells) + population_change(
            action,
        ),
{
    let n = cells.len() as int;
    let after = applied(rules, cells, i, action);
    let count_before = |k: int| if cells[k].occupant is Some { 1int } else { 0int };
    let count_after = |k: int| if after[k].occupant is Some { 1int } else { 0int };
    assert(cells[i].wf());
    match action {
        Action::Rest => {
            assert(after == cells);
        },
        Action::Die => {
            lemma_sum_change_one(count_before, count_after, i, n);
        },
        Action::Stay => {
            lemma_sum_change_one(count_before, count_after, i, n);
        },
        Action::Reproduce { to } => {
            let fed = Cell { occupant: cells[i].occupant, field: grazed_field(rules, cells[i].field) };
            let middle = cells.update(i, fed);
            let count_middle = |k: int| if middle[k].occupant is Some { 1int } else { 0int };
            assert(cells[to as int].wf());
            lemma_sum_change_one(count_before, count_middle, i, n);
            lemma_sum_change_one(count_middle, count_after, to as int, n);
        },
        Action::Move { to } => {
            let left = Cell { occupant: None, field: grazed_field(rules, cells[i].field) };
            let middle = cells.update(i, left);
            let count_middle = |k: int| if middle[k].occupant is Some { 1int } else { 0int };
            assert(cells[to as int].wf());
            lemma_sum_change_one(count_before, count_middle, i, n);
            lemma_sum_change_one(count_middle, count_after, to as int, n);
        },
    }
}

/// At every point of the phase the grid keeps its size and its cells stay
/// well formed, and the number of creatures is the number at the start plus
/// the births less the deaths so far.
pub proof fn lemma_resolve_upto_population(
    rules: Rules,
    width: int,
    height: int,
    snapshot: Seq<Cell>,
    state: PhaseState,
    k: int,
)
    requires
        phase_inputs_wf(rules, width, height, state.cells),
        state.cells.len() <= usize::MAX,
        0 <= k <= state.cells.len(),
    ensures
        phase_inputs_wf(rules, width, height, resolve_upto(rules, width, snapshot, state, k).cells),
        population(resolve_upto(rules, width, snapshot, state, k).cells) == population(state.cells)
            + growth_upto(rules, width, snapshot, state, k),
    decreases k,
{
    if k > 0 {
        lemma_resolve_upto_population(rules, width, height, snapshot, state, k - 1);
        let before = resolve_upto(rules, width, snapshot, state, k - 1);
        if snapshot[k - 1].occupant is Some {
            let action = decision(rules, width, before.cells, before.rng, k - 1);
            lemma_decision_target(rules, width, height, before.cells, before.rng, k - 1);
            lemma_apply_population(rules, before.cells, k - 1, action);
        }
    }
}

/// Occupancy stays exclusive through the occupant phase: every cell holds at
/// most one creature, and none is lost or doubled. The number of creatures
/// after the phase is the number before it plus the births less the deaths.
pub proof fn lemma_occupant_phase_population(
    rules: Rules,
    width: int,
    height: int,
    cells: Seq<Cell>,
    rng: u64,
)
    requires
        phase_inputs_wf(rules, width, height, cells),
        cells.len() <= usize::MAX,
    ensures
        phase_inputs_wf(rules, width, height, occupant_phase(rules, width, cells, rng).cells),
        population(occupant_phase(rules, width, cells, rng).cells) == population(cells)
            + growth_upto(rules, width, cells, PhaseState { cells, rng }, cells.len() as int),
{
    lemma_resolve_upto_population(
        rules,
        width,
        height,
        cells,
        PhaseState { cells, rng },
        cells.len() as int,
    );
}

/// Turns are taken only where the snapshot shows a creature: over a stretch
/// of indices at which it shows none, the state does not change.
pub proof fn lemma_unoccupied_turns_skip(
    rules: Rules,
    width: int,
    snapshot: Seq<Cell>,
    state: PhaseState,
    lo: int,
    hi: int,
)
    requires
        0 <= lo <= hi,
        forall|k: int| lo <= k < hi ==> (#[trigger] snapshot[k]).occupant is None,
    ensures
        resolve_upto(rules, width, snapshot, state, hi) == resolve_upto(
            rules,
            width,
            snapshot,
            state,
            lo,
        ),
    decreases hi - lo,
{
    if hi > lo {
        lemma_unoccupied_turns_skip(rules, width, snapshot, state, lo, hi - 1);
        assert(snapshot[hi - 1].occupant is None);
    }
}

/// Where a cell has one vacant neighbour, that neighbour is the richest.
pub proof fn lemma_sole_vacancy_is_richest(width: int, cells: Seq<Cell>, i: int, t: usize)
    requires
        vacancies(width, cells, i) == seq![t],
    ensures
        richest_vacancies(width, cells, i) == seq![t],
{
    let count = cells.len() as int;
    let up = listed(has_up(width, count, i) && cells[i - width].occupant is None, i - width);
    let left = listed(has_left(width, count, i) && cells[i - 1].occupant is None, i - 1);
    let right = listed(has_right(width, count, i) && cells[i + 1].occupant is None, i + 1);
    let down = listed(has_down(width, count, i) && cells[i + width].occupant is None, i + width);
    let all = vacancies(width, cells, i);
    assert(all == up + left + right + down);
    assert(all.len() == up.len() + left.len() + right.len() + down.len());
    assert(all[0] == t);
    assert(richest_vacancies(width, cells, i) =~= seq![t]);
}

/// The rules under which a creature that takes its turn never dies or
/// reproduces, and always moves where it can.
pub open spec fn always_moving(rules: Rules) -> bool {
    rules.death_chance == 0 && rules.birth_chance == 0 && rules.move_chance >= AMOUNT_ONE
}

/// Under rules by which creatures always move: a creature that takes its
/// turn with one vacant neighbour moves there.
pub proof fn lemma_mover_takes_sole_vacancy(
    rules: Rules,
    width: int,
    cells: Seq<Cell>,
    rng: u64,
    i: int,
    t: usize,
)
    requires
        always_moving(rules),
        cells[i].occupant is Some,
        !rests(rules, width, cells, i),
        vacancies(width, cells, i) == seq![t],
    ensures
        decision(rules, width, cells, rng, i) == (Action::Move { to: t }),
{
    lemma_sole_vacancy_is_richest(width, cells, i, t);
    let best = richest_vacancies(width, cells, i);
    let draw = draw_u64(next_state(next_state(next_state(rng))));
    assert(best.len() == 1);
    assert((draw % (best.len() as u64)) as int == 0);
    assert(picked(best, draw) == best[0]);
}

/// Under rules by which creatures always move: a creature with no vacant
/// neighbour keeps its cell.
pub proof fn lemma_hemmed_in_creature_stays(
    rules: Rules,
    width: int,
    cells: Seq<Cell>,
    rng: u64,
    i: int,
)
    requires
        always_moving(rules),
        0 <= i < cells.len(),
        vacancies(width, cells, i).len() == 0,
    ensures
        decision(rules, width, cells, rng, i) is Rest || decision(rules, width, cells, rng, i)
            is Stay,
        applied(rules, cells, i, decision(rules, width, cells, rng, i))[i].occupant
            == cells[i].occupant,
        forall|k: int|
            0 <= k < cells.len() && k != i ==> #[trigger] applied(
                rules,
                cells,
                i,
                decision(rules, width, cells, rng, i),
            )[k] == cells[k],
{
    let count = cells.len() as int;
    let all = vacancies(width, cells, i);
    let best = richest_vacancies(width, cells, i);
    assert(all.len() == listed(
        has_up(width, count, i) && cells[i - width].occupant is None,
        i - width,
    ).len() + listed(has_left(width, count, i) && cells[i - 1].occupant is None, i - 1).len()
        + listed(has_right(width, count, i) && cells[i + 1].occupant is None, i + 1).len()
        + listed(has_down(width, count, i) && cells[i + width].occupant is None, i + width).len());
    assert(best =~= Seq::<usize>::empty());
}

/// Once its single vacant neighbour `t` is taken, a creature has no vacant
/// neighbour left, provided that no other cell next to it was vacated: the
/// cells `after` differ in occupancy from `cells` at most at `t` and at a
/// cell `a` that is not next to the creature at index `b`.
pub proof fn lemma_sole_vacancy_taken(
    width: int,
    height: int,
    cells: Seq<Cell>,
    after: Seq<Cell>,
    a: int,
    b: int,
    t: usize,
)
    requires
        width > 0,
        height > 0,
        cells.len() == width * height,
        cells.len() <= usize::MAX,
        after.len() == cells.len(),
        0 <= b < cells.len(),
        vacancies(width, cells, b) == seq![t],
        neighbors_where(width, cells, b, |j: int| j == a).len() == 0,
        0 <= t < cells.len(),
        after[t as int].occupant is Some,
        forall|j: int|
            0 <= j < cells.len() && j != a && j != t ==> (#[trigger] after[j]).occupant
                == cells[j].occupant,
    ensures
        vacancies(width, after, b).len() == 0,
{
    let n = cells.len() as int;
    lemma_corner_columns(width, height);
    if b % width < width - 1 {
        lemma_right_neighbor_in_grid(width, height, b);
    }
    let was = vacancies(width, cells, b);
    let was_up = listed(has_up(width, n, b) && cells[b - width].occupant is None, b - width);
    let was_left = listed(has_left(width, n, b) && cells[b - 1].occupant is None, b - 1);
    let was_right = listed(has_right(width, n, b) && cells[b + 1].occupant is None, b + 1);
    let was_down = listed(has_down(width, n, b) && cells[b + width].occupant is None, b + width);
    assert(was == was_up + was_left + was_right + was_down);
    assert(was.len() == was_up.len() + was_left.len() + was_right.len() + was_down.len());
    assert(was[0] == t);
    let near = neighbors_where(width, cells, b, |j: int| j == a);
    let near_up = listed(has_up(width, n, b) && b - width == a, b - width);
    let near_left = listed(has_left(width, n, b) && b - 1 == a, b - 1);
    let near_right = listed(has_right(width, n, b) && b + 1 == a, b + 1);
    let near_down = listed(has_down(width, n, b) && b + width == a, b + width);
    assert(near == near_up + near_left + near_right + near_down);
    assert(near.len() == near_up.len() + near_left.len() + near_right.len() + near_down.len());
    if has_up(width, n, b) {
        assert(b - width != a);
        assert(cells[b - width].occupant is None ==> b - width == t);
        assert(after[b - width].occupant is Some);
    }
    if has_left(width, n, b) {
        assert(b - 1 != a);
        assert(cells[b - 1].occupant is None ==> b - 1 == t);
        assert(after[b - 1].occupant is Some);
    }
    if has_right(width, n, b) {
        assert(b + 1 != a);
        assert(cells[b + 1].occupant is None ==> b + 1 == t);
        assert(after[b + 1].occupant is Some);
    }
    if has_down(width, n, b) {
        assert(b + width != a);
        assert(cells[b + width].occupant is None ==> b + width == t);
        assert(after[b + width].occupant is Some);
    }
}

/// The first mover wins. Two creatures, alone on the grid, have the same
/// single vacant neighbour `t`; the one at index `a` comes first in
/// row-major order and is not next to the one at index `b`. Under rules by
/// which creatures always move, after the phase the first creature is in
/// `t`, its former cell is vacant, and the second is where it was: neither
/// is lost or doubled, whatever the seed.
pub proof fn lemma_first_mover_wins(
    rules: Rules,
    width: int,
    height: int,
    cells: Seq<Cell>,
    rng: u64,
    a: int,
    b: int,
    t: usize,
)
    requires
        phase_inputs_wf(rules, width, height, cells),
        cells.len() <= usize::MAX,
        always_moving(rules),
        0 <= a < b < cells.len(),
        forall|k: int|
            0 <= k < cells.len() ==> ((#[trigger] cells[k]).occupant is Some <==> (k == a || k
                == b)),
        vacancies(width, cells, a) == seq![t],
        vacancies(width, cells, b) == seq![t],
        neighbors_where(width, cells, b, |j: int| j == a).len() == 0,
        !rests(rules, width, cells, a),
    ensures
        occupant_phase(rules, width, cells, rng).cells.len() == cells.len(),
        occupant_phase(rules, width, cells, rng).cells[t as int].occupant == cells[a].occupant,
        occupant_phase(rules, width, cells, rng).cells[a].occupant is None,
        occupant_phase(rules, width, cells, rng).cells[b].occupant == cells[b].occupant,
        forall|k: int|
            0 <= k < cells.len() && k != t && k != b ==> (#[trigger] occupant_phase(
                rules,
                width,
                cells,
                rng,
            ).cells[k]).occupant is None,
{
    let n = cells.len() as int;
    let start = PhaseState { cells, rng };
    lemma_neighbors_where(width, height, cells, a, |j: int| cells[j].occupant is None);
    lemma_neighbors_where(width, height, cells, b, |j: int| cells[j].occupant is None);
    assert(vacancies(width, cells, a)[0] == t);
    assert(vacancies(width, cells, b)[0] == t);
    assert(t < n && t != a && t != b);

    // Nothing happens before the first creature's turn.
    lemma_unoccupied_turns_skip(rules, width, cells, start, 0, a);
    assert(resolve_upto(rules, width, cells, start, a) == start);

    // The first creature moves into the vacancy.
    lemma_mover_takes_sole_vacancy(rules, width, cells, rng, a, t);
    let first = resolve(rules, width, start, a);
    assert(resolve_upto(rules, width, cells, start, a + 1) == first);
    assert(first.cells.len() == n);
    assert(first.cells[t as int].occupant == cells[a].occupant);
    assert(first.cells[a].occupant is None);
    assert(first.cells[b] == cells[b]);

    // Nothing happens between the two turns.
    lemma_unoccupied_turns_skip(rules, width, cells, start, a + 1, b);

    // The second creature has no vacancy left.
    lemma_sole_vacancy_taken(width, height, cells, first.cells, a, b, t);
    lemma_hemmed_in_creature_stays(rules, width, first.cells, first.rng, b);
    let second = resolve(rules, width, first, b);
    assert(resolve_upto(rules, width, cells, start, b + 1) == second);

    // Nothing happens after the second turn.
    lemma_unoccupied_turns_skip(rules, width, cells, start, b + 1, n);
}

fn is_busy(cell: &Cell) -> (b: bool)
    ensures
        b == busy(*cell),
{
    cell.occupant.is_some() || cell.field.is_some()
}

fn is_isolated(width: usize, height: usize, cells: &Vec<Cell>, i: usize) -> (b: bool)
    requires
        width > 0,
        height > 0,
        cells@.len() == width * height,
        i < cells@.len(),
    ensures
        b == isolated(width as int, cells@, i as int),
{
    let count: usize = cells.len();
    let sides: Sides = sides_of(width, height, i);
    if cells[i].field.is_some() {
        return false;
    }
    let up: bool = sides.up && is_busy(&cells[i - width]);
    let left: bool = sides.left && is_busy(&cells[i - 1]);
    let right: bool = sides.right && is_busy(&cells[i + 1]);
    let down: bool = sides.down && is_busy(&cells[i + width]);
    !(up || left || right || down)
}

fn vacant_neighbors(width: usize, height: usize, cells: &Vec<Cell>, i: usize) -> (found: Vec<usize>)
    requires
        width > 0,
        height > 0,
        cells@.len() == width * height,
        i < cells@.len(),
    ensures
        found@ == vacancies(width as int, cells@, i as int),
        forall|k: int|
            0 <= k < found@.len() ==> (#[trigger] found@[k]) < cells@.len() && found@[k] != i
                && cells@[found@[k] as int].occupant is None,
{
    let count: usize = cells.len();
    let sides: Sides = sides_of(width, height, i);
    let mut found: Vec<usize> = Vec::new();
    if sides.up && cells[i - width].occupant.is_none() {
        found.push(i - width);
    }
    if sides.left && cells[i - 1].occupant.is_none() {
        found.push(i - 1);
    }
    if sides.right && cells[i + 1].occupant.is_none() {
        found.push(i + 1);
    }
    if sides.down && cells[i + width].occupant.is_none() {
        found.push(i + width);
    }
    assert(found@ =~= vacancies(width as int, cells@, i as int));
    found
}

fn amount_if_vacant(cells: &Vec<Cell>, there: bool, j: usize) -> (a: i64)
    requires
        there ==> j < cells@.len(),
    ensures
        a == vacant_amount(cells@, there, j as int),
{
    if there && cells[j].occupant.is_none() {
        cells[j].amount() as i64
    } else {
        -1
    }
}

fn larger_of(a: i64, b: i64) -> (m: i64)
    ensures
        m == larger(a as int, b as int),
{
    if a >= b {
        a
    } else {
        b
    }
}

fn richest_vacant_neighbors(width: usize, height: usize, cells: &Vec<Cell>, i: usize) -> (found:
    Vec<usize>)
    requires
        width > 0,
        height > 0,
        cells@.len() == width * height,
        i < cells@.len(),
    ensures
        found@ == richest_vacancies(width as int, cells@, i as int),
        forall|k: int|
            0 <= k < found@.len() ==> (#[trigger] found@[k]) < cells@.len() && found@[k] != i
                && cells@[found@[k] as int].occupant is None,
{
    let count: usize = cells.len();
    let sides: Sides = sides_of(width, height, i);
    let above: usize = if sides.up { i - width } else { 0 };
    let before: usize = if sides.left { i - 1 } else { 0 };
    let after: usize = if sides.right { i + 1 } else { 0 };
    let below: usize = if sides.down { i + width } else { 0 };
    let at_up: i64 = amount_if_vacant(cells, sides.up, above);
    let at_left: i64 = amount_if_vacant(cells, sides.left, before);
    let at_right: i64 = amount_if_vacant(cells, sides.right, after);
    let at_down: i64 = amount_if_vacant(cells, sides.down, below);
    let best: i64 = larger_of(larger_of(at_up, at_left), larger_of(at_right, at_down));
    assert(best == richest_amount(width as int, cells@, i as int));
    let mut found: Vec<usize> = Vec::new();
    if at_up >= 0 && at_up == best {
        found.push(above);
    }
    if at_left >= 0 && at_left == best {
        found.push(before);
    }
    if at_right >= 0 && at_right == best {
        found.push(after);
    }
    if at_down >= 0 && at_down == best {
        found.push(below);
    }
    assert(found@ =~= richest_vacancies(width as int, cells@, i as int));
    found
}

/// Decides what the creature at index `i` does, drawing from `rng` as the
/// rules prescribe. A target, where there is one, is a vacant cell of the
/// grid other than `i`.
pub fn decide(
    rules: &Rules,
    width: usize,
    height: usize,
    cells: &Vec<Cell>,
    rng: &mut RandomSource,
    i: usize,
) -> (action: Action)
    requires
        phase_inputs_wf(*rules, width as int, height as int, cells@),
        i < cells@.len(),
    ensures
        action == decision(*rules, width as int, cells@, old(rng)@, i as int),
        final(rng)@ == rng_after(old(rng)@, action),
        target_is_vacant(cells@, i as int, action),
{
    if cells[i].occupant.is_none() || (rules.rest_when_isolated && is_isolated(
        width,
        height,
        cells,
        i,
    )) {
        return Action::Rest;
    }
    let dies: bool = rng.next_bool(rules.death_chance);
    let breeds: bool = rng.next_bool(rules.birth_chance);
    let moves: bool = rng.next_bool(rules.move_chance);
    let draw: u64 = rng.next_u64();
    if dies {
        return Action::Die;
    }
    let all: Vec<usize> = vacant_neighbors(width, height, cells, i);
    let hungry: bool = rules.appetite > 0 && cells[i].amount() > 0;
    if hungry && breeds && all.len() > 0 {
        let k: usize = (draw % (all.len() as u64)) as usize;
        return Action::Reproduce { to: all[k] };
    }
    let best: Vec<usize> = richest_vacant_neighbors(width, height, cells, i);
    if moves && best.len() > 0 {
        let k: usize = (draw % (best.len() as u64)) as usize;
        return Action::Move { to: best[k] };
    }
    Action::Stay
}

fn graze(rules: &Rules, field: Option<Substance>) -> (r: Option<Substance>)
    requires
        field matches Some(s) ==> s.wf(),
    ensures
        r == grazed_field(*rules, field),
        r matches Some(s) ==> s.wf(),
{
    match field {
        Some(s) => {
            let eaten: u32 = if s.amount <= rules.appetite {
                s.amount
            } else {
                rules.appetite
            };
            if eaten == 0 {
                field
            } else if s.amount - eaten > rules.epsilon {
                Some(Substance { color: s.color, amount: s.amount - eaten })
            } else {
                None
            }
        },
        None => None,
    }
}

fn enrich(rules: &Rules, field: Option<Substance>, color: Rgb) -> (r: Option<Substance>)
    requires
        field matches Some(s) ==> s.wf(),
    ensures
        r == enriched_field(*rules, field, color),
        r matches Some(s) ==> s.wf(),
{
    let held: u64 = match field {
        Some(s) => s.amount as u64,
        None => 0,
    };
    let sum: u64 = held + rules.deposit as u64;
    let total: u32 = if sum > AMOUNT_ONE as u64 {
        AMOUNT_ONE
    } else {
        sum as u32
    };
    if rules.deposit == 0 {
        field
    } else if total > rules.epsilon {
        Some(
            Substance {
                color: match field {
                    Some(s) => s.color,
                    None => color,
                },
                amount: total,
            },
        )
    } else {
        None
    }
}

fn child_of(parent: Creature) -> (child: Creature)
    ensures
        child == offspring(parent),
{
    Creature { color: Rgb { r: parent.color.g, g: parent.color.b, b: parent.color.r } }
}

/// Carries out the action of the creature at index `i`.
pub fn apply(rules: &Rules, cells: &mut Vec<Cell>, i: usize, action: Action)
    requires
        i < old(cells)@.len(),
        forall|k: int| 0 <= k < old(cells)@.len() ==> (#[trigger] old(cells)@[k]).wf(),
        action matches Action::Reproduce { to } ==> to < old(cells)@.len(),
        action matches Action::Move { to } ==> to < old(cells)@.len(),
    ensures
        final(cells)@ == applied(*rules, old(cells)@, i as int, action),
        final(cells)@.len() == old(cells)@.len(),
        forall|k: int| 0 <= k < final(cells)@.len() ==> (#[trigger] final(cells)@[k]).wf(),
{
    let cell: Cell = cells[i];
    assert(cell.wf());
    match cell.occupant {
        None => {},
        Some(creature) => {
            match action {
                Action::Rest => {},
                Action::Die => {
                    cells.set(
                        i,
                        Cell { occupant: None, field: enrich(rules, cell.field, creature.color) },
                    );
                },
                Action::Stay => {
                    cells.set(i, Cell { occupant: cell.occupant, field: graze(rules, cell.field) });
                },
                Action::Reproduce { to } => {
                    let target: Cell = cells[to];
                    assert(target.wf());
                    cells.set(i, Cell { occupant: cell.occupant, field: graze(rules, cell.field) });
                    cells.set(
                        to,
                        Cell { occupant: Some(child_of(creature)), field: target.field },
                    );
                },
                Action::Move { to } => {
                    let target: Cell = cells[to];
                    assert(target.wf());
                    cells.set(i, Cell { occupant: None, field: graze(rules, cell.field) });
                    cells.set(to, Cell { occupant: Some(creature), field: target.field });
                },
            }
        },
    }
}

/// Runs one occupant phase over `cells`, which fill `height` rows of
/// `width`, in place.
pub fn resolve_creatures(
    rules: &Rules,
    width: usize,
    height: usize,
    cells: &mut Vec<Cell>,
    rng: &mut RandomSource,
)
    requires
        phase_inputs_wf(*rules, width as int, height as int, old(cells)@),
    ensures
        final(cells)@ == occupant_phase(*rules, width as int, old(cells)@, old(rng)@).cells,
        final(rng)@ == occupant_phase(*rules, width as int, old(cells)@, old(rng)@).rng,
        phase_inputs_wf(*rules, width as int, height as int, final(cells)@),
        population(final(cells)@) == population(old(cells)@) + growth_upto(
            *rules,
            width as int,
            old(cells)@,
            PhaseState { cells: old(cells)@, rng: old(rng)@ },
            old(cells)@.len() as int,
        ),
{
    let count: usize = cells.len();
    proof {
        lemma_occupant_phase_population(*rules, width as int, height as int, cells@, rng@);
    }
    let ghost start = PhaseState { cells: cells@, rng: rng@ };
    let mut pending: Vec<bool> = Vec::new();
    let mut j: usize = 0;
    while j < count
        invariant
            j <= count,
            count == cells@.len(),
            cells@ == start.cells,
            pending@.len() == j,
            forall|k: int| 0 <= k < j ==> (#[trigger] pending@[k]) == (cells@[k].occupant is Some),
        decreases count - j,
    {
        pending.push(cells[j].occupant.is_some());
        j = j + 1;
    }
    let mut i: usize = 0;
    while i < count
        invariant
            i <= count,
            count == cells@.len(),
            count == start.cells.len(),
            pending@.len() == count,
            forall|k: int|
                0 <= k < count ==> (#[trigger] pending@[k]) == (start.cells[k].occupant is Some),
            phase_inputs_wf(*rules, width as int, height as int, cells@),
            (PhaseState { cells: cells@, rng: rng@ }) == resolve_upto(
                *rules,
                width as int,
                start.cells,
                start,
                i as int,
            ),
        decreases count - i,
    {
        if pending[i] {
            let action: Action = decide(rules, width, height, cells, rng, i);
            apply(rules, cells, i, action);
        }
        i = i + 1;
    }
}

} // verus!

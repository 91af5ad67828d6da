//! The simulation engine: a grid, a generator and the rules, advanced one
//! tick at a time.
//!
//! The engine has no notion of running or paused: it advances when asked
//! to. Its state after any number of ticks is a function of the state it
//! started from, so a run can be replayed exactly from its seed and its
//! initial grid.

use vstd::prelude::*;
use crate::cell::{Cell, Creature, Rgb, Substance, AMOUNT_ONE};
use crate::field::{
    decayed, diffuse, field_phase, lemma_field_phase_mass_bound, settled_cell, share, share_at,
    total_amount,
};
use crate::grid::{Grid, GridError, GridView};
use crate::occupant::{
    growth_upto, isolated, lemma_occupant_phase_population, occupant_phase, population,
    resolve_creatures, resolve_upto, PhaseState,
};
use crate::random::{draw_bool, draw_u64, next_state, RandomSource};
use crate::rules::Rules;

verus! {

/// The mathematical content of an engine.
pub struct EngineState {
    pub width: nat,
    pub height: nat,
    pub cells: Seq<Cell>,
    pub rng: u64,
    pub rules: Rules,
}

impl EngineState {
    /// The grid of this state.
    pub open spec fn grid(self) -> GridView {
        GridView { width: self.width, height: self.height, cells: self.cells }
    }

    /// The grid and the rules are well formed.
    pub open spec fn wf(self) -> bool {
        self.grid().wf() && self.rules.wf()
    }
}

/// The state after the field phase of a tick.
pub open spec fn after_field_phase(s: EngineState) -> EngineState {
    EngineState { cells: field_phase(s.rules, s.width as int, s.cells), ..s }
}

/// The state after the occupant phase of a tick.
pub open spec fn after_occupant_phase(s: EngineState) -> EngineState {
    let end = occupant_phase(s.rules, s.width as int, s.cells, s.rng);
    EngineState { cells: end.cells, rng: end.rng, ..s }
}

/// The births less the deaths of the occupant phase of a tick.
pub open spec fn net_growth(s: EngineState) -> int {
    growth_upto(
        s.rules,
        s.width as int,
        s.cells,
        PhaseState { cells: s.cells, rng: s.rng },
        s.cells.len() as int,
    )
}

/// The state after one tick: the field phase, then the occupant phase.
pub open spec fn tick(s: EngineState) -> EngineState {
    after_occupant_phase(after_field_phase(s))
}

/// The state after `n` ticks.
pub open spec fn run(s: EngineState, n: nat) -> EngineState
    decreases n,
{
    if n == 0 {
        s
    } else {
        tick(run(s, (n - 1) as nat))
    }
}

/// The state of a newly built engine: an empty grid and a generator seeded
/// with `seed`.
pub open spec fn initial(width: nat, height: nat, seed: u64, rules: Rules) -> EngineState {
    EngineState {
        width,
        height,
        cells: Seq::new(width * height, |i: int| Cell { occupant: None, field: None }),
        rng: seed,
        rules,
    }
}

/// The generator's state `steps` draws after `rng`.
pub open spec fn skipped(rng: u64, steps: nat) -> u64
    decreases steps,
{
    if steps == 0 {
        rng
    } else {
        next_state(skipped(rng, (steps - 1) as nat))
    }
}

/// The colour that a 64-bit draw stands for: its three lowest bytes.
pub open spec fn color_from(draw: u64) -> Rgb {
    Rgb { r: (draw % 256) as u8, g: (draw / 256 % 256) as u8, b: (draw / 65_536 % 256) as u8 }
}

/// The positive amount that a 64-bit draw stands for: a value in
/// `[1, AMOUNT_ONE]`, taken above its three lowest bytes.
pub open spec fn amount_from(draw: u64) -> u32 {
    (draw / 16_777_216 % (AMOUNT_ONE as u64) + 1) as u32
}

/// The cell sown by a generator in state `rng`, with four draws: whether a
/// creature is there, its colour, whether a substance is there, and its
/// colour and amount.
pub open spec fn sown_cell(rng: u64, creature_chance: u32, substance_chance: u32) -> Cell {
    let second = next_state(rng);
    let third = next_state(second);
    let fourth = next_state(third);
    Cell {
        occupant: if draw_bool(rng, creature_chance) {
            Some(Creature { color: color_from(draw_u64(second)) })
        } else {
            None
        },
        field: if draw_bool(third, substance_chance) {
            Some(
                Substance {
                    color: color_from(draw_u64(fourth)),
                    amount: amount_from(draw_u64(fourth)),
                },
            )
        } else {
            None
        },
    }
}

/// The state after the grid was sown anew: cell by cell in row-major order,
/// four draws to each.
pub open spec fn sown(s: EngineState, creature_chance: u32, substance_chance: u32) -> EngineState {
    EngineState {
        cells: Seq::new(
            s.cells.len(),
            |i: int| sown_cell(skipped(s.rng, (4 * i) as nat), creature_chance, substance_chance),
        ),
        rng: skipped(s.rng, 4 * s.cells.len()),
        ..s
    }
}

/// A tick keeps a well-formed state well formed, and changes neither the
/// dimensions nor the rules.
pub proof fn lemma_tick_preserves_wf(s: EngineState)
    requires
        s.wf(),
    ensures
        tick(s).wf(),
        tick(s).width == s.width,
        tick(s).height == s.height,
        tick(s).rules == s.rules,
{
    let settled = after_field_phase(s);
    lemma_field_phase_mass_bound(s.rules, s.width as int, s.height as int, s.cells);
    assert forall|i: int| 0 <= i < settled.cells.len() implies (#[trigger] settled.cells[i]).wf() by {
        assert(0 <= settled.cells[i].spec_amount() <= AMOUNT_ONE);
    }
    lemma_occupant_phase_population(
        s.rules,
        s.width as int,
        s.height as int,
        settled.cells,
        settled.rng,
    );
}

/// Every state of a run is well formed, over the dimensions and under the
/// rules that the run started with.
pub proof fn lemma_run_preserves_wf(s: EngineState, n: nat)
    requires
        s.wf(),
    ensures
        run(s, n).wf(),
        run(s, n).width == s.width,
        run(s, n).height == s.height,
        run(s, n).rules == s.rules,
    decreases n,
{
    if n > 0 {
        lemma_run_preserves_wf(s, (n - 1) as nat);
        lemma_tick_preserves_wf(run(s, (n - 1) as nat));
    }
}

/// A run is determined by where it starts: from equal states, any number of
/// ticks leads to equal states, generator included.
pub proof fn lemma_run_deterministic(a: EngineState, b: EngineState, n: nat)
    requires
        a == b,
    ensures
        run(a, n) == run(b, n),
{
}

/// Ticks add up: stopping after `m` ticks and going on for `n` more leads
/// where `m + n` ticks lead.
pub proof fn lemma_run_composes(s: EngineState, m: nat, n: nat)
    ensures
        run(s, m + n) == run(run(s, m), n),
    decreases n,
{
    if n > 0 {
        lemma_run_composes(s, m, (n - 1) as nat);
        assert(m + n - 1 == m + (n - 1));
    }
}

/// Whether nothing on the grid stimulates anything: no cell holds a
/// substance, no creature has a creature next to it, and the rules let the
/// isolated rest.
pub open spec fn quiet(s: EngineState) -> bool {
    s.rules.rest_when_isolated && forall|i: int|
        0 <= i < s.cells.len() ==> (#[trigger] s.cells[i]).field is None && (
        s.cells[i].occupant is Some ==> isolated(s.width as int, s.cells, i))
}

/// On a quiet grid nothing happens: a tick leaves every cell as it is and
/// uses no randomness.
pub proof fn lemma_quiet_state_is_fixed(s: EngineState)
    requires
        s.wf(),
        quiet(s),
    ensures
        tick(s) == s,
{
    let width = s.width as int;
    assert(decayed(s.rules, 0) == 0 && share(s.rules, 0) == 0) by (nonlinear_arith)
        requires
            decayed(s.rules, 0) == 0 * (AMOUNT_ONE - s.rules.decay) / (AMOUNT_ONE as int),
            share(s.rules, 0) == decayed(s.rules, 0) * s.rules.diffusion / (AMOUNT_ONE as int),
    ;
    assert forall|j: int| share_at(s.rules, s.cells, j) == 0 by {
        if 0 <= j < s.cells.len() {
            assert(s.cells[j].field is None);
        }
    }
    assert forall|i: int| 0 <= i < s.cells.len() implies settled_cell(
        s.rules,
        width,
        s.cells,
        i,
    ) == s.cells[i] by {
        assert(s.cells[i].field is None);
        assert(share_at(s.rules, s.cells, i - width) == 0);
        assert(share_at(s.rules, s.cells, i - 1) == 0);
        assert(share_at(s.rules, s.cells, i + 1) == 0);
        assert(share_at(s.rules, s.cells, i + width) == 0);
    }
    assert(field_phase(s.rules, width, s.cells) =~= s.cells);
    lemma_quiet_turns_change_nothing(s, s.cells.len() as int);
}

/// On a quiet grid the turns of the creatures below index `k` change
/// nothing.
proof fn lemma_quiet_turns_change_nothing(s: EngineState, k: int)
    requires
        quiet(s),
        0 <= k <= s.cells.len(),
    ensures
        resolve_upto(
            s.rules,
            s.width as int,
            s.cells,
            PhaseState { cells: s.cells, rng: s.rng },
            k,
        ) == (PhaseState { cells: s.cells, rng: s.rng }),
    decreases k,
{
    if k > 0 {
        lemma_quiet_turns_change_nothing(s, k - 1);
        assert(s.cells[k - 1].field is None);
    }
}

/// Occupancy stays exclusive through the occupant phase of a tick: no
/// creature is lost or doubled, so their number changes by exactly the
/// births less the deaths.
pub proof fn lemma_occupant_phase_keeps_count(s: EngineState)
    requires
        s.wf(),
    ensures
        after_occupant_phase(s).wf(),
        population(after_occupant_phase(s).cells) == population(s.cells) + net_growth(s),
{
    lemma_occupant_phase_population(s.rules, s.width as int, s.height as int, s.cells, s.rng);
}

/// The field phase of a tick never adds substance, and leaves every amount
/// within `[0, 1]`.
pub proof fn lemma_field_phase_never_adds(s: EngineState)
    requires
        s.wf(),
    ensures
        total_amount(after_field_phase(s).cells) <= total_amount(s.cells),
        forall|i: int|
            0 <= i < s.cells.len() ==> 0 <= (#[trigger] after_field_phase(
                s,
            ).cells[i]).spec_amount() <= AMOUNT_ONE,
{
    lemma_field_phase_mass_bound(s.rules, s.width as int, s.height as int, s.cells);
}

/// The engine.
#[derive(Clone, Debug)]
pub struct SimulationEngine {
    grid: Grid,
    rng: RandomSource,
    rules: Rules,
}

impl View for SimulationEngine {
    type V = EngineState;

    closed spec fn view(&self) -> EngineState {
        EngineState {
            width: self.grid@.width,
            height: self.grid@.height,
            cells: self.grid@.cells,
            rng: self.rng@,
            rules: self.rules,
        }
    }
}

impl SimulationEngine {
    /// The engine's invariant: see [`EngineState::wf`].
    pub open spec fn wf(&self) -> bool {
        self@.wf()
    }

    /// An engine over an empty grid, with the default rules. Refused with
    /// `InvalidDimensions` exactly when a dimension is 0 or the cell count
    /// does not fit in `usize`.
    pub fn new(width: usize, height: usize, seed: u64) -> (r: Result<SimulationEngine, GridError>)
        ensures
            (width == 0 || height == 0 || width * height > usize::MAX) ==> r matches Err(
                GridError::InvalidDimensions,
            ),
            (width > 0 && height > 0 && width * height <= usize::MAX) ==> (r matches Ok(e) && e.wf()
                && e@ == initial(width as nat, height as nat, seed, Rules::default_spec())),
    {
        SimulationEngine::with_rules(width, height, seed, Rules::default())
    }

    /// An engine over an empty grid, with the given rules, clamped where
    /// they are not well formed. Refused as `new` is.
    pub fn with_rules(width: usize, height: usize, seed: u64, rules: Rules) -> (r: Result<
        SimulationEngine,
        GridError,
    >)
        ensures
            (width == 0 || height == 0 || width * height > usize::MAX) ==> r matches Err(
                GridError::InvalidDimensions,
            ),
            (width > 0 && height > 0 && width * height <= usize::MAX) ==> (r matches Ok(e) && e.wf()
                && e@ == initial(width as nat, height as nat, seed, rules.spec_clamped())),
    {
        match Grid::new(width, height) {
            Err(e) => Err(e),
            Ok(grid) => {
                let engine = SimulationEngine {
                    grid,
                    rng: RandomSource::new(seed),
                    rules: rules.clamped(),
                };
                assert(engine@.cells =~= initial(
                    width as nat,
                    height as nat,
                    seed,
                    rules.spec_clamped(),
                ).cells);
                Ok(engine)
            },
        }
    }

    /// An engine over the given grid, with the given rules, clamped where
    /// they are not well formed.
    pub fn from_grid(grid: Grid, seed: u64, rules: Rules) -> (e: SimulationEngine)
        requires
            grid.wf(),
        ensures
            e.wf(),
            e@.grid() == grid@,
            e@.rng == seed,
            e@.rules == rules.spec_clamped(),
    {
        SimulationEngine { grid, rng: RandomSource::new(seed), rules: rules.clamped() }
    }

    /// Puts a cell on the grid; `OutOfBounds`, with nothing changed, exactly
    /// when the position is outside the grid.
    pub fn seed_cell(&mut self, x: usize, y: usize, cell: Cell) -> (r: Result<(), GridError>)
        requires
            old(self).wf(),
            cell.wf(),
        ensures
            final(self).wf(),
            old(self)@.grid().in_bounds(x as int, y as int) ==> r == Ok::<(), GridError>(())
                && final(self)@ == (EngineState {
                cells: old(self)@.cells.update(old(self)@.grid().index_of(x as int, y as int), cell),
                ..old(self)@
            }),
            !old(self)@.grid().in_bounds(x as int, y as int) ==> r == Err::<(), GridError>(
                GridError::OutOfBounds,
            ) && final(self)@ == old(self)@,
    {
        self.grid.set(x, y, cell)
    }

    /// Sows the whole grid anew from the generator: each cell gets a creature
    /// with probability `creature_chance` and a substance with probability
    /// `substance_chance`, both in millionths, in random colours.
    pub fn populate(&mut self, creature_chance: u32, substance_chance: u32)
        requires
            old(self).wf(),
        ensures
            final(self).wf(),
            final(self)@ == sown(old(self)@, creature_chance, substance_chance),
    {
        let count: usize = self.grid.num_cells();
        let ghost start = self.rng@;
        let mut cells: Vec<Cell> = Vec::new();
        let mut i: usize = 0;
        while i < count
            invariant
                i <= count,
                cells@.len() == i,
                self.rng@ == skipped(start, (4 * i) as nat),
                self.grid == old(self).grid,
                self.rules == old(self).rules,
                forall|k: int|
                    0 <= k < i ==> (#[trigger] cells@[k]) == sown_cell(
                        skipped(start, (4 * k) as nat),
                        creature_chance,
                        substance_chance,
                    ),
                forall|k: int| 0 <= k < i ==> (#[trigger] cells@[k]).wf(),
            decreases count - i,
        {
            proof {
                reveal_with_fuel(skipped, 5);
            }
            let alive: bool = self.rng.next_bool(creature_chance);
            let tint: u64 = self.rng.next_u64();
            let present: bool = self.rng.next_bool(substance_chance);
            let stuff: u64 = self.rng.next_u64();
            assert(self.rng@ == skipped(start, (4 * (i + 1)) as nat));
            let occupant: Option<Creature> = if alive {
                Some(Creature { color: color_of_draw(tint) })
            } else {
                None
            };
            let field: Option<Substance> = if present {
                Some(
                    Substance {
                        color: color_of_draw(stuff),
                        amount: (stuff / 16_777_216 % (AMOUNT_ONE as u64) + 1) as u32,
                    },
                )
            } else {
                None
            };
            cells.push(Cell { occupant, field });
            i = i + 1;
        }
        assert(cells@ =~= sown(old(self)@, creature_chance, substance_chance).cells);
        self.grid.replace_cells(cells);
    }

    /// Runs the field phase alone. It never adds substance.
    pub fn field_phase(&mut self)
        requires
            old(self).wf(),
        ensures
            final(self).wf(),
            final(self)@ == after_field_phase(old(self)@),
            total_amount(final(self)@.cells) <= total_amount(old(self)@.cells),
    {
        let width: usize = self.grid.width();
        let height: usize = self.grid.height();
        let next: Vec<Cell> = diffuse(&self.rules, width, height, self.grid.cells_iter());
        self.grid.replace_cells(next);
    }

    /// Runs the occupant phase alone. No creature is lost or doubled: their
    /// number changes by the births less the deaths.
    pub fn occupant_phase(&mut self)
        requires
            old(self).wf(),
        ensures
            final(self).wf(),
            final(self)@ == after_occupant_phase(old(self)@),
            population(final(self)@.cells) == population(old(self)@.cells) + net_growth(
                old(self)@,
            ),
    {
        let width: usize = self.grid.width();
        let height: usize = self.grid.height();
        let mut work: Vec<Cell> = copy_cells(self.grid.cells_iter());
        resolve_creatures(&self.rules, width, height, &mut work, &mut self.rng);
        self.grid.replace_cells(work);
    }

    /// Advances the simulation by one tick.
    pub fn advance(&mut self)
        requires
            old(self).wf(),
        ensures
            final(self).wf(),
            final(self)@ == tick(old(self)@),
    {
        let width: usize = self.grid.width();
        let height: usize = self.grid.height();
        let mut next: Vec<Cell> = diffuse(&self.rules, width, height, self.grid.cells_iter());
        resolve_creatures(&self.rules, width, height, &mut next, &mut self.rng);
        self.grid.replace_cells(next);
    }

    /// The cell at a position; `OutOfBounds` exactly when the position is
    /// outside the grid.
    pub fn get(&self, x: usize, y: usize) -> (r: Result<&Cell, GridError>)
        requires
            self.wf(),
        ensures
            self@.grid().in_bounds(x as int, y as int) ==> r == Ok::<&Cell, GridError>(
                &self@.grid().cell_at(x as int, y as int),
            ),
            !self@.grid().in_bounds(x as int, y as int) ==> r == Err::<&Cell, GridError>(
                GridError::OutOfBounds,
            ),
    {
        self.grid.get(x, y)
    }

    /// Every cell, in row-major order, as of the last tick. Reading changes
    /// nothing, so two reads between ticks give the same sequence.
    pub fn cells_iter(&self) -> (r: &Vec<Cell>)
        ensures
            r@ == self@.cells,
    {
        self.grid.cells_iter()
    }

    /// The number of cells: `width * height`.
    pub fn num_cells(&self) -> (n: usize)
        requires
            self.wf(),
        ensures
            n == self@.width * self@.height,
            n == self@.cells.len(),
    {
        self.grid.num_cells()
    }

    /// The number of columns.
    pub fn width(&self) -> (w: usize)
        ensures
            w == self@.width,
    {
        self.grid.width()
    }

    /// The number of rows.
    pub fn height(&self) -> (h: usize)
        ensures
            h == self@.height,
    {
        self.grid.height()
    }

    /// The rules in force.
    pub fn rules(&self) -> (r: Rules)
        ensures
            r == self@.rules,
    {
        self.rules
    }
}

fn color_of_draw(draw: u64) -> (c: Rgb)
    ensures
        c == color_from(draw),
{
    Rgb { r: (draw % 256) as u8, g: (draw / 256 % 256) as u8, b: (draw / 65_536 % 256) as u8 }
}

fn copy_cells(cells: &Vec<Cell>) -> (copy: Vec<Cell>)
    ensures
        copy@ == cells@,
{
    let mut copy: Vec<Cell> = Vec::new();
    let mut i: usize = 0;
    while i < cells.len()
        invariant
            i <= cells@.len(),
            copy@.len() == i,
            forall|k: int| 0 <= k < i ==> (#[trigger] copy@[k]) == cells@[k],
        decreases cells@.len() - i,
    {
        copy.push(cells[i]);
        i = i + 1;
    }
    assert(copy@ =~= cells@);
    copy
}

} // verus!

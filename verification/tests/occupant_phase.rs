use evo_grid::cell::{Cell, Creature, Rgb, Substance, AMOUNT_ONE};
use evo_grid::engine::SimulationEngine;
use evo_grid::occupant::{apply, decide, resolve_creatures, Action};
use evo_grid::random::RandomSource;
use evo_grid::rules::Rules;

const GREY: Rgb = Rgb { r: 9, g: 9, b: 9 };
const A: Creature = Creature { color: Rgb { r: 1, g: 2, b: 3 } };
const B: Creature = Creature { color: Rgb { r: 40, g: 50, b: 60 } };
const C: Creature = Creature { color: Rgb { r: 7, g: 7, b: 7 } };

fn holding(creature: Creature) -> Cell {
    Cell { occupant: Some(creature), field: None }
}

fn food(amount: u32) -> Cell {
    Cell { occupant: None, field: Some(Substance::new(GREY, amount)) }
}

fn feeding(creature: Creature, amount: u32) -> Cell {
    Cell { occupant: Some(creature), field: Some(Substance::new(GREY, amount)) }
}

fn empty_cells(count: usize) -> Vec<Cell> {
    vec![Cell::empty(); count]
}

fn movers() -> Rules {
    Rules { move_chance: AMOUNT_ONE, ..Rules::inert() }
}

fn population(cells: &[Cell]) -> usize {
    cells.iter().filter(|c| c.occupant.is_some()).count()
}

#[test]
fn an_isolated_creature_rests_and_no_substance_appears() {
    for seed in 0..20u64 {
        let mut engine = SimulationEngine::new(3, 3, seed).unwrap();
        engine.seed_cell(1, 1, holding(A)).unwrap();
        engine.advance();
        for (i, cell) in engine.cells_iter().iter().enumerate() {
            assert_eq!(cell.field, None);
            assert_eq!(cell.occupant, if i == 4 { Some(A) } else { None });
        }
    }
}

#[test]
fn an_isolated_creature_rests_even_where_every_chance_is_one() {
    let rules = Rules {
        death_chance: AMOUNT_ONE,
        birth_chance: AMOUNT_ONE,
        move_chance: AMOUNT_ONE,
        appetite: AMOUNT_ONE,
        deposit: AMOUNT_ONE,
        ..Rules::inert()
    };
    let mut cells = empty_cells(9);
    cells[4] = holding(A);
    let before = cells.clone();
    let mut rng = RandomSource::new(3);
    resolve_creatures(&rules, 3, 3, &mut cells, &mut rng);
    assert_eq!(cells, before);
}

#[test]
fn an_isolated_creature_uses_no_randomness() {
    let mut cells = empty_cells(9);
    cells[4] = holding(A);
    let mut rng = RandomSource::new(77);
    let action = decide(&Rules::default(), 3, 3, &cells, &mut rng, 4);
    assert_eq!(action, Action::Rest);
    assert_eq!(rng.next_u64(), RandomSource::new(77).next_u64());
}

#[test]
fn a_stimulated_creature_uses_four_draws() {
    let mut cells = empty_cells(9);
    cells[4] = holding(A);
    cells[5] = food(10);
    let mut rng = RandomSource::new(77);
    let _ = decide(&Rules::inert(), 3, 3, &cells, &mut rng, 4);
    let mut plain = RandomSource::new(77);
    for _ in 0..4 {
        let _ = plain.next_u64();
    }
    assert_eq!(rng.next_u64(), plain.next_u64());
}

#[test]
fn an_empty_cell_has_nothing_to_decide() {
    let mut cells = empty_cells(4);
    cells[1] = food(500);
    let mut rng = RandomSource::new(1);
    assert_eq!(decide(&movers(), 2, 2, &cells, &mut rng, 0), Action::Rest);
    assert_eq!(rng.next_u64(), RandomSource::new(1).next_u64());
}

#[test]
fn of_two_creatures_that_want_one_cell_the_first_in_scan_order_takes_it() {
    for seed in 0..50u64 {
        let mut cells = vec![holding(A), food(500_000), holding(B)];
        let mut rng = RandomSource::new(seed);
        resolve_creatures(&movers(), 3, 1, &mut cells, &mut rng);
        assert_eq!(cells, vec![Cell::empty(), feeding(A, 500_000), holding(B)]);
    }
}

#[test]
fn the_first_mover_wins_in_a_crowded_square() {
    for seed in 0..50u64 {
        let mut cells = vec![holding(A), holding(B), holding(C), Cell::empty()];
        let mut rng = RandomSource::new(seed);
        resolve_creatures(&movers(), 2, 2, &mut cells, &mut rng);
        assert_eq!(cells, vec![holding(A), Cell::empty(), holding(C), holding(B)]);
    }
}

#[test]
fn the_first_mover_wins_through_a_whole_tick() {
    let mut engine = SimulationEngine::with_rules(3, 1, 99, movers()).unwrap();
    engine.seed_cell(0, 0, holding(A)).unwrap();
    engine.seed_cell(1, 0, food(500_000)).unwrap();
    engine.seed_cell(2, 0, holding(B)).unwrap();
    engine.advance();
    assert_eq!(*engine.cells_iter(), vec![Cell::empty(), feeding(A, 500_000), holding(B)]);
}

#[test]
fn a_creature_that_moved_ahead_is_not_resolved_again() {
    for seed in 0..50u64 {
        let mut cells = vec![holding(A), food(500_000), Cell::empty()];
        let mut rng = RandomSource::new(seed);
        resolve_creatures(&movers(), 3, 1, &mut cells, &mut rng);
        assert_eq!(cells, vec![Cell::empty(), feeding(A, 500_000), Cell::empty()]);
    }
}

#[test]
fn a_creature_with_no_vacant_neighbor_stays() {
    let mut cells = vec![holding(A), holding(B)];
    let mut rng = RandomSource::new(5);
    assert_eq!(decide(&movers(), 2, 1, &cells, &mut rng, 0), Action::Stay);
    resolve_creatures(&movers(), 2, 1, &mut cells, &mut RandomSource::new(5));
    assert_eq!(cells, vec![holding(A), holding(B)]);
}

#[test]
fn a_creature_moves_to_the_richest_vacant_neighbor() {
    for seed in 0..50u64 {
        let mut cells = empty_cells(9);
        cells[4] = holding(A);
        cells[1] = food(100);
        cells[5] = food(500_000);
        cells[3] = feeding(B, 900_000);
        let mut rng = RandomSource::new(seed);
        assert_eq!(decide(&movers(), 3, 3, &cells, &mut rng, 4), Action::Move { to: 5 });
    }
}

#[test]
fn a_tie_between_the_richest_is_broken_by_the_fourth_draw() {
    let expected = [(5u64, 7usize), (6, 1), (7, 7), (8, 1)];
    for (seed, to) in expected {
        let mut cells = empty_cells(9);
        cells[4] = holding(A);
        cells[1] = food(400_000);
        cells[7] = food(400_000);
        let mut rng = RandomSource::new(seed);
        assert_eq!(decide(&movers(), 3, 3, &cells, &mut rng, 4), Action::Move { to });
    }
}

#[test]
fn a_move_takes_the_creature_and_leaves_the_fields() {
    let mut cells = vec![feeding(A, 300_000), food(700_000)];
    apply(&Rules::inert(), &mut cells, 0, Action::Move { to: 1 });
    assert_eq!(cells, vec![food(300_000), feeding(A, 700_000)]);
}

#[test]
fn a_creature_that_dies_leaves_its_cell_and_a_deposit_in_its_color() {
    let rules = Rules { death_chance: AMOUNT_ONE, deposit: 300_000, ..Rules::inert() };
    let mut cells = vec![holding(A), food(10)];
    let mut rng = RandomSource::new(4);
    assert_eq!(decide(&rules, 2, 1, &cells, &mut rng, 0), Action::Die);
    resolve_creatures(&rules, 2, 1, &mut cells, &mut RandomSource::new(4));
    assert_eq!(
        cells,
        vec![
            Cell { occupant: None, field: Some(Substance::new(A.color, 300_000)) },
            food(10)
        ]
    );
}

#[test]
fn a_deposit_adds_to_the_field_and_is_capped_at_one() {
    let rules = Rules { deposit: 300_000, ..Rules::inert() };
    let mut cells = vec![feeding(A, 800_000)];
    apply(&rules, &mut cells, 0, Action::Die);
    assert_eq!(cells, vec![food(AMOUNT_ONE)]);
    let mut cells = vec![feeding(A, 100_000)];
    apply(&rules, &mut cells, 0, Action::Die);
    assert_eq!(cells, vec![food(400_000)]);
}

#[test]
fn a_deposit_at_or_below_the_threshold_leaves_no_field() {
    let rules = Rules { deposit: 500, epsilon: 500, ..Rules::inert() };
    let mut cells = vec![holding(A)];
    apply(&rules, &mut cells, 0, Action::Die);
    assert_eq!(cells, vec![Cell::empty()]);
    let rules = Rules { deposit: 501, epsilon: 500, ..Rules::inert() };
    let mut cells = vec![holding(A)];
    apply(&rules, &mut cells, 0, Action::Die);
    assert_eq!(cells, vec![Cell { occupant: None, field: Some(Substance::new(A.color, 501)) }]);
}

#[test]
fn a_death_without_deposit_leaves_the_field_as_it_is() {
    let mut cells = vec![feeding(A, 5)];
    apply(&Rules::inert(), &mut cells, 0, Action::Die);
    assert_eq!(cells, vec![food(5)]);
}

#[test]
fn a_creature_that_stays_feeds_on_its_own_cell() {
    let rules = Rules { appetite: 100_000, ..Rules::inert() };
    let mut cells = vec![feeding(A, 250_000)];
    let mut rng = RandomSource::new(8);
    assert_eq!(decide(&rules, 1, 1, &cells, &mut rng, 0), Action::Stay);
    resolve_creatures(&rules, 1, 1, &mut cells, &mut RandomSource::new(8));
    assert_eq!(cells, vec![feeding(A, 150_000)]);
}

#[test]
fn feeding_takes_no_more_than_there_is() {
    let rules = Rules { appetite: 100_000, ..Rules::inert() };
    let mut cells = vec![feeding(A, 60_000)];
    apply(&rules, &mut cells, 0, Action::Stay);
    assert_eq!(cells, vec![holding(A)]);
}

#[test]
fn what_feeding_leaves_at_or_below_the_threshold_vanishes() {
    let rules = Rules { appetite: 100_000, epsilon: 150_000, ..Rules::inert() };
    let mut cells = vec![feeding(A, 250_000)];
    apply(&rules, &mut cells, 0, Action::Stay);
    assert_eq!(cells, vec![holding(A)]);
    let mut cells = vec![feeding(A, 250_001)];
    apply(&rules, &mut cells, 0, Action::Stay);
    assert_eq!(cells, vec![feeding(A, 150_001)]);
}

#[test]
fn without_appetite_the_field_is_left_as_it_is() {
    let rules = Rules { epsilon: 1_000, ..Rules::inert() };
    let mut cells = vec![feeding(A, 10)];
    apply(&rules, &mut cells, 0, Action::Stay);
    assert_eq!(cells, vec![feeding(A, 10)]);
}

#[test]
fn a_creature_that_fed_reproduces_into_a_vacant_neighbor() {
    let rules = Rules { birth_chance: AMOUNT_ONE, appetite: 100_000, ..Rules::inert() };
    for seed in 0..50u64 {
        let mut cells = vec![feeding(A, 500_000), Cell::empty()];
        let mut rng = RandomSource::new(seed);
        resolve_creatures(&rules, 2, 1, &mut cells, &mut rng);
        let child = Creature { color: Rgb { r: 2, g: 3, b: 1 } };
        assert_eq!(cells, vec![feeding(A, 400_000), holding(child)]);
    }
}

#[test]
fn the_offspring_is_placed_by_the_fourth_draw() {
    let rules = Rules { birth_chance: AMOUNT_ONE, appetite: 100_000, ..Rules::inert() };
    let expected = [(1u64, 7usize), (2, 1), (3, 7), (4, 5)];
    for (seed, to) in expected {
        let mut cells = empty_cells(9);
        cells[4] = feeding(A, 500_000);
        let mut rng = RandomSource::new(seed);
        assert_eq!(decide(&rules, 3, 3, &cells, &mut rng, 4), Action::Reproduce { to });
    }
}

#[test]
fn a_creature_that_did_not_feed_does_not_reproduce() {
    let rules = Rules { birth_chance: AMOUNT_ONE, appetite: 100_000, ..Rules::inert() };
    let mut cells = vec![holding(A), food(500_000)];
    let mut rng = RandomSource::new(12);
    assert_eq!(decide(&rules, 2, 1, &cells, &mut rng, 0), Action::Stay);
    resolve_creatures(&rules, 2, 1, &mut cells, &mut RandomSource::new(12));
    assert_eq!(cells, vec![holding(A), food(500_000)]);
}

#[test]
fn a_newborn_ahead_in_scan_order_waits_for_the_next_tick() {
    let rules = Rules { birth_chance: AMOUNT_ONE, appetite: 1, ..Rules::inert() };
    let mut cells = vec![feeding(A, 500_000), food(500_000), Cell::empty()];
    resolve_creatures(&rules, 3, 1, &mut cells, &mut RandomSource::new(0));
    assert_eq!(population(&cells), 2);
    assert_eq!(cells[1].amount(), 500_000);
    assert_eq!(cells[2], Cell::empty());
}

#[test]
fn death_is_decided_before_anything_else() {
    let rules = Rules {
        death_chance: AMOUNT_ONE,
        birth_chance: AMOUNT_ONE,
        move_chance: AMOUNT_ONE,
        appetite: 100_000,
        ..Rules::inert()
    };
    let mut cells = vec![feeding(A, 500_000), Cell::empty()];
    resolve_creatures(&rules, 2, 1, &mut cells, &mut RandomSource::new(0));
    assert_eq!(cells, vec![food(500_000), Cell::empty()]);
}

#[test]
fn the_number_of_creatures_changes_by_births_and_deaths_only() {
    let mut cells = vec![feeding(A, 500_000), Cell::empty(), holding(B)];
    apply(&Rules::inert(), &mut cells, 0, Action::Move { to: 1 });
    assert_eq!(population(&cells), 2);
    apply(&Rules::inert(), &mut cells, 1, Action::Stay);
    assert_eq!(population(&cells), 2);
    apply(&Rules::inert(), &mut cells, 1, Action::Rest);
    assert_eq!(population(&cells), 2);
    apply(&Rules::inert(), &mut cells, 1, Action::Reproduce { to: 0 });
    assert_eq!(population(&cells), 3);
    apply(&Rules::inert(), &mut cells, 2, Action::Die);
    assert_eq!(population(&cells), 2);
}

#[test]
fn an_action_on_an_empty_cell_changes_nothing() {
    let mut cells = vec![food(5), holding(A)];
    let before = cells.clone();
    apply(&Rules::default(), &mut cells, 0, Action::Die);
    apply(&Rules::default(), &mut cells, 0, Action::Stay);
    apply(&Rules::default(), &mut cells, 0, Action::Move { to: 1 });
    apply(&Rules::default(), &mut cells, 0, Action::Reproduce { to: 1 });
    assert_eq!(cells, before);
}

#[test]
fn inert_rules_change_nothing() {
    let mut engine = SimulationEngine::with_rules(6, 5, 17, Rules::inert()).unwrap();
    engine.populate(400_000, 400_000);
    let before = engine.cells_iter().clone();
    for _ in 0..5 {
        engine.advance();
    }
    assert_eq!(*engine.cells_iter(), before);
}

#[test]
fn a_grid_of_scattered_creatures_without_substance_stays_as_it_is() {
    let rules = Rules {
        death_chance: AMOUNT_ONE,
        birth_chance: AMOUNT_ONE,
        move_chance: AMOUNT_ONE,
        appetite: AMOUNT_ONE,
        deposit: AMOUNT_ONE,
        decay: 100_000,
        diffusion: 100_000,
        epsilon: 0,
        rest_when_isolated: true,
    };
    let mut engine = SimulationEngine::with_rules(5, 5, 2, rules).unwrap();
    // no two of these positions are next to each other
    for (x, y) in [(0usize, 0usize), (2, 0), (4, 0), (1, 1), (3, 1), (0, 2), (4, 4), (2, 3)] {
        engine.seed_cell(x, y, holding(A)).unwrap();
    }
    let before = engine.cells_iter().clone();
    for _ in 0..10 {
        engine.advance();
        assert_eq!(*engine.cells_iter(), before);
    }
}

fn restless_movers() -> Rules {
    Rules { move_chance: AMOUNT_ONE, rest_when_isolated: false, ..Rules::inert() }
}

#[test]
fn without_rest_the_first_of_two_creatures_takes_the_cell_between_them() {
    for seed in 0..50u64 {
        let mut cells = vec![holding(A), Cell::empty(), holding(B)];
        let mut rng = RandomSource::new(seed);
        resolve_creatures(&restless_movers(), 3, 1, &mut cells, &mut rng);
        assert_eq!(cells, vec![Cell::empty(), holding(A), holding(B)]);
    }
}

#[test]
fn without_rest_the_first_mover_wins_in_a_column_through_a_whole_tick() {
    for seed in 0..50u64 {
        let mut engine = SimulationEngine::with_rules(1, 3, seed, restless_movers()).unwrap();
        engine.seed_cell(0, 0, holding(A)).unwrap();
        engine.seed_cell(0, 2, holding(B)).unwrap();
        engine.advance();
        assert_eq!(*engine.cells_iter(), vec![Cell::empty(), holding(A), holding(B)]);
        assert_eq!(population(engine.cells_iter()), 2);
    }
}

#[test]
fn with_rest_two_creatures_with_nothing_around_them_stay() {
    for seed in 0..50u64 {
        let mut cells = vec![holding(A), Cell::empty(), holding(B)];
        let mut rng = RandomSource::new(seed);
        resolve_creatures(&movers(), 3, 1, &mut cells, &mut rng);
        assert_eq!(cells, vec![holding(A), Cell::empty(), holding(B)]);
    }
}

#[test]
fn without_rest_an_isolated_creature_takes_its_turn() {
    let mut cells = empty_cells(9);
    cells[4] = holding(A);
    let mut rng = RandomSource::new(77);
    let action = decide(&restless_movers(), 3, 3, &cells, &mut rng, 4);
    assert!(matches!(action, Action::Move { to: 1 | 3 | 5 | 7 }));
    let mut plain = RandomSource::new(77);
    for _ in 0..4 {
        let _ = plain.next_u64();
    }
    assert_eq!(rng.next_u64(), plain.next_u64());
}

#[test]
fn without_rest_a_lone_creature_in_a_single_cell_stays() {
    let mut cells = vec![holding(A)];
    let mut rng = RandomSource::new(1);
    assert_eq!(decide(&restless_movers(), 1, 1, &cells, &mut rng, 0), Action::Stay);
    resolve_creatures(&restless_movers(), 1, 1, &mut cells, &mut RandomSource::new(1));
    assert_eq!(cells, vec![holding(A)]);
}

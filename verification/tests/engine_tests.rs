use redstone::blocks::Air;
use redstone::blocks::Block;
use redstone::blocks::Direction;
use redstone::blocks::Iron;
use redstone::blocks::RedstoneBlock;
use redstone::blocks::RedstoneDust;
use redstone::blocks::Repeater;
use redstone::engine::advance_world;
use redstone::engine::clamp;
use redstone::engine::get_four_sides;
use redstone::engine::is_powered;
use redstone::engine::neighbor;
use redstone::engine::update_power_level;
use redstone::grid::Grid;

fn grids_match(a: &Grid, b: &Grid) -> bool {
    if a.width() != b.width() || a.height() != b.height() {
        return false;
    }
    for i in 0..a.len() {
        let x = a.get(i).unwrap();
        let y = b.get(i).unwrap();
        if !x.same_block(y) {
            return false;
        }
    }
    true
}

fn dust_at(g: &Grid, idx: usize) -> u8 {
    match g.get(idx) {
        Some(Block::RedstoneDust(d)) => d.power_level,
        _ => panic!("expected dust at {}", idx),
    }
}

fn repeater_at(g: &Grid, idx: usize) -> Repeater {
    match g.get(idx) {
        Some(Block::Repeater(r)) => *r,
        _ => panic!("expected repeater at {}", idx),
    }
}

#[test]
fn clamp_is_exact() {
    assert_eq!(clamp(10, 0, 15), 10);
    assert_eq!(clamp(20, 0, 15), 15);
    assert_eq!(clamp(0, 0, 15), 0);
    assert_eq!(clamp(3, 5, 15), 5);
    assert_eq!(clamp(255, 0, 15), 15);
}

#[test]
fn neighbor_respects_rows_and_edges() {
    // 3 x 2 grid: indices 0 1 2 / 3 4 5
    assert_eq!(neighbor(3, 2, 0, Direction::North), None);
    assert_eq!(neighbor(3, 2, 0, Direction::West), None);
    assert_eq!(neighbor(3, 2, 0, Direction::East), Some(1));
    assert_eq!(neighbor(3, 2, 0, Direction::South), Some(3));
    // no wrap from the start of a row to the end of the one before
    assert_eq!(neighbor(3, 2, 3, Direction::West), None);
    assert_eq!(neighbor(3, 2, 2, Direction::East), None);
    assert_eq!(neighbor(3, 2, 4, Direction::North), Some(1));
    assert_eq!(neighbor(3, 2, 4, Direction::South), None);
    assert_eq!(neighbor(3, 2, 5, Direction::South), None);
}

#[test]
fn get_four_sides_orders_present_neighbors() {
    let mut g = Grid::new(3, 3, Block::from(Air::new()));
    g.place(1, Block::from(Iron::new())).unwrap();
    g.place(3, Block::from(RedstoneBlock::new())).unwrap();
    // corner cell 0 has East and South neighbours only
    let sides = get_four_sides(0, &g);
    assert_eq!(sides.len(), 2);
    assert_eq!(sides[0].0, Direction::South);
    assert!(matches!(sides[0].1, Block::RedstoneBlock(_)));
    assert_eq!(sides[1].0, Direction::East);
    assert!(matches!(sides[1].1, Block::Iron(_)));
    // the centre cell has all four
    let all = get_four_sides(4, &g);
    assert_eq!(all.len(), 4);
    assert_eq!(all[0].0, Direction::North);
    assert_eq!(all[1].0, Direction::South);
    assert_eq!(all[2].0, Direction::East);
    assert_eq!(all[3].0, Direction::West);
}

#[test]
fn update_power_level_takes_strongest_side() {
    let mut g = Grid::new(3, 1, Block::from(Air::new()));
    g.place(0, Block::from(RedstoneDust { power_level: 9 }))
        .unwrap();
    g.place(2, Block::from(RedstoneDust { power_level: 4 }))
        .unwrap();
    let mut wire = RedstoneDust::new();
    update_power_level(1, &g, &mut wire);
    assert_eq!(wire.power_level, 8);
}

#[test]
fn is_powered_reads_the_cell_behind() {
    let mut g = Grid::new(3, 1, Block::from(Air::new()));
    g.place(0, Block::from(RedstoneDust { power_level: 1 }))
        .unwrap();
    // a repeater at 1 facing East is fed from the West
    assert!(is_powered(1, &Direction::East, &g));
    // facing West it would be fed from the East, which is air
    assert!(!is_powered(1, &Direction::West, &g));
}

#[test]
fn advance_is_deterministic() {
    let mut g = Grid::new(4, 4, Block::from(Air::new()));
    g.place(5, Block::from(RedstoneBlock::new())).unwrap();
    g.place(6, Block::from(RedstoneDust::new())).unwrap();
    g.place(10, Block::from(Repeater::new(Direction::South)))
        .unwrap();
    let a = advance_world(&g);
    let b = advance_world(&g);
    assert!(grids_match(&a, &b));
}

#[test]
fn source_saturates_adjacent_conductor() {
    // dust surrounded by a source and weaker inputs still reads 15
    let mut g = Grid::new(3, 3, Block::from(Air::new()));
    g.place(1, Block::from(RedstoneDust { power_level: 3 }))
        .unwrap();
    g.place(3, Block::from(RedstoneDust { power_level: 3 }))
        .unwrap();
    g.place(4, Block::from(RedstoneBlock::new())).unwrap();
    g.place(5, Block::from(RedstoneDust::new())).unwrap();
    let next = advance_world(&g);
    assert_eq!(dust_at(&next, 1), 15);
    assert_eq!(dust_at(&next, 3), 15);
    assert_eq!(dust_at(&next, 5), 15);
}

#[test]
fn straight_line_settles_to_decaying_profile() {
    // a source and four conductors in one row
    let mut g = Grid::new(5, 1, Block::from(Air::new()));
    g.place(0, Block::from(RedstoneBlock::new())).unwrap();
    for i in 1..5 {
        g.place(i, Block::from(RedstoneDust::new())).unwrap();
    }
    let mut cur = g;
    for _ in 0..4 {
        cur = advance_world(&cur);
    }
    assert_eq!(dust_at(&cur, 1), 15);
    assert_eq!(dust_at(&cur, 2), 14);
    assert_eq!(dust_at(&cur, 3), 13);
    assert_eq!(dust_at(&cur, 4), 12);
    let again = advance_world(&cur);
    assert!(grids_match(&cur, &again));
}

#[test]
fn long_line_clamps_to_zero() {
    // far enough from the source the signal dies out entirely
    let n = 20;
    let mut g = Grid::new(n, 1, Block::from(Air::new()));
    g.place(0, Block::from(RedstoneBlock::new())).unwrap();
    for i in 1..n {
        g.place(i, Block::from(RedstoneDust::new())).unwrap();
    }
    let mut cur = g;
    for _ in 0..n {
        cur = advance_world(&cur);
    }
    assert_eq!(dust_at(&cur, 15), 1);
    assert_eq!(dust_at(&cur, 16), 0);
    assert_eq!(dust_at(&cur, 19), 0);
    let again = advance_world(&cur);
    assert!(grids_match(&cur, &again));
}

#[test]
fn powered_gate_feeds_conductor_full_strength() {
    let mut g = Grid::new(3, 1, Block::from(Air::new()));
    g.place(
        0,
        Block::from(Repeater {
            facing: Direction::East,
            powered: true,
        }),
    )
    .unwrap();
    g.place(1, Block::from(RedstoneDust::new())).unwrap();
    let next = advance_world(&g);
    assert_eq!(dust_at(&next, 1), 15);
}

#[test]
fn sideways_gate_does_not_feed_conductor() {
    let mut g = Grid::new(3, 1, Block::from(Air::new()));
    g.place(
        0,
        Block::from(Repeater {
            facing: Direction::North,
            powered: true,
        }),
    )
    .unwrap();
    g.place(1, Block::from(RedstoneDust::new())).unwrap();
    let next = advance_world(&g);
    assert_eq!(dust_at(&next, 1), 0);
}

#[test]
fn gate_accepts_same_facing_feed() {
    let mut g = Grid::new(2, 1, Block::from(Air::new()));
    g.place(
        0,
        Block::from(Repeater {
            facing: Direction::East,
            powered: true,
        }),
    )
    .unwrap();
    g.place(1, Block::from(Repeater::new(Direction::East)))
        .unwrap();
    let next = advance_world(&g);
    assert!(repeater_at(&next, 1).powered);
}

#[test]
fn gate_rejects_crosswise_feed() {
    let mut g = Grid::new(2, 1, Block::from(Air::new()));
    g.place(
        0,
        Block::from(Repeater {
            facing: Direction::North,
            powered: true,
        }),
    )
    .unwrap();
    g.place(1, Block::from(Repeater::new(Direction::East)))
        .unwrap();
    let next = advance_world(&g);
    assert!(!repeater_at(&next, 1).powered);
}

#[test]
fn edge_cells_treat_missing_neighbors_as_silent() {
    // every cell of a 2 x 2 grid is an edge cell
    let mut g = Grid::new(2, 2, Block::from(Air::new()));
    g.place(0, Block::from(RedstoneDust { power_level: 9 }))
        .unwrap();
    g.place(1, Block::from(Repeater::new(Direction::North)))
        .unwrap();
    g.place(2, Block::from(Iron::new())).unwrap();
    g.place(3, Block::from(RedstoneDust::new())).unwrap();
    let next = advance_world(&g);
    // nothing in bounds feeds any of these cells
    assert_eq!(dust_at(&next, 0), 0);
    assert!(!repeater_at(&next, 1).powered);
    assert!(matches!(next.get(2), Some(Block::Iron(_))));
    assert_eq!(dust_at(&next, 3), 0);

    // a 1 x 1 world advances without any neighbour at all
    let mut tiny = Grid::new(1, 1, Block::from(Air::new()));
    tiny.place(0, Block::from(RedstoneDust { power_level: 5 }))
        .unwrap();
    let settled = advance_world(&tiny);
    assert_eq!(dust_at(&settled, 0), 0);
}

#[test]
fn three_cell_wave_scenario() {
    // [Source, Conductor(0), Conductor(0)]: each tick reads only the
    // previous generation, so the wave moves one cell per tick and settles
    // at [Source, 15, 14]
    let mut g = Grid::new(3, 1, Block::from(Air::new()));
    g.place(0, Block::from(RedstoneBlock::new())).unwrap();
    g.place(1, Block::from(RedstoneDust::new())).unwrap();
    g.place(2, Block::from(RedstoneDust::new())).unwrap();
    let one = advance_world(&g);
    assert!(matches!(one.get(0), Some(Block::RedstoneBlock(_))));
    assert_eq!(dust_at(&one, 1), 15);
    assert_eq!(dust_at(&one, 2), 0);
    let two = advance_world(&one);
    assert_eq!(dust_at(&two, 1), 15);
    assert_eq!(dust_at(&two, 2), 14);
    let three = advance_world(&two);
    assert!(grids_match(&two, &three));
}

#[test]
fn gate_chain_scenario() {
    // [Gate(E, on), Gate(E, off), Empty]: the middle gate turns on after one
    // tick; from the second tick on the grid no longer changes.
    let mut g = Grid::new(3, 1, Block::from(Air::new()));
    g.place(
        0,
        Block::from(Repeater {
            facing: Direction::East,
            powered: true,
        }),
    )
    .unwrap();
    g.place(1, Block::from(Repeater::new(Direction::East)))
        .unwrap();
    let one = advance_world(&g);
    assert!(repeater_at(&one, 1).powered);
    assert_eq!(repeater_at(&one, 1).facing, Direction::East);
    let two = advance_world(&one);
    let three = advance_world(&two);
    assert!(grids_match(&two, &three));
}

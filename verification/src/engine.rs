//! The propagation engine: computes generation `t + 1` of a grid entirely
//! from generation `t`. The next grid is built as a fresh value, written
//! independently of the input, so traversal order can never let a cell read
//! a half-updated neighbour.

use vstd::prelude::*;
use vstd::arithmetic::div_mod::lemma_fundamental_div_mod;
use crate::blocks::Air;
use crate::blocks::Block;
use crate::blocks::Direction;
use crate::blocks::RedstoneDust;
use crate::blocks::Repeater;
use crate::blocks::spec_oposite;
use crate::grid::Grid;

verus! {

/// Strongest signal a cell can carry or emit.
pub const MAX_SIGNAL: u8 = 15;

/// Weakest signal: none at all.
pub const MIN_SIGNAL: u8 = 0;

/// `x` forced into `[lo, hi]`: the larger of `lo` and the smaller of `x`
/// and `hi`.
pub open spec fn spec_clamp(x: int, lo: int, hi: int) -> int {
    let low = if x < hi {
        x
    } else {
        hi
    };
    if low < lo {
        lo
    } else {
        low
    }
}

/// `clamp(x, min, max)` is `max(min, min(x, max))`, exactly as the engine
/// attenuates a neighbour's strength.
pub fn clamp(x: u8, min: u8, max: u8) -> (r: u8)
    ensures
        r == spec_clamp(x as int, min as int, max as int),
{
    let low: u8 = if x < max {
        x
    } else {
        max
    };
    if low < min {
        min
    } else {
        low
    }
}

/// The signed delta a single step in direction `d` adds to a flattened
/// row-major index, on a grid `width` cells wide.
pub open spec fn dir_offset(d: Direction, width: int) -> int {
    match d {
        Direction::North => -width,
        Direction::South => width,
        Direction::West => -1,
        Direction::East => 1,
    }
}

/// The flattened index one step in direction `d` from `idx`, on a grid of
/// the given extent; `None` when the step would leave the grid or wrap to
/// another row.
pub open spec fn spec_neighbor(width: int, height: int, idx: int, d: Direction) -> Option<int> {
    let x = idx % width;
    let y = idx / width;
    let stays = match d {
        Direction::North => y > 0,
        Direction::South => y < height - 1,
        Direction::West => x > 0,
        Direction::East => x < width - 1,
    };
    if stays {
        Some(idx + dir_offset(d, width))
    } else {
        None
    }
}

/// An in-bounds index has in-bounds neighbours: a present neighbour never
/// leaves the flattened extent.
pub proof fn lemma_neighbor_in_bounds(width: int, height: int, idx: int, d: Direction)
    requires
        0 < width,
        0 < height,
        0 <= idx < width * height,
    ensures
        spec_neighbor(width, height, idx, d) matches Some(j) ==> 0 <= j < width * height,
{
    lemma_fundamental_div_mod(idx, width);
    let x = idx % width;
    let y = idx / width;
    assert(0 <= x < width);
    assert(y < height) by (nonlinear_arith)
        requires
            0 < width,
            0 < height,
            0 <= idx < width * height,
            idx == width * y + x,
            0 <= x < width,
    ;
    assert(0 <= y) by (nonlinear_arith)
        requires
            0 < width,
            0 <= idx,
            idx == width * y + x,
            0 <= x < width,
    ;
    match d {
        Direction::North => {
            if y > 0 {
                assert(0 <= idx - width < width * height) by (nonlinear_arith)
                    requires
                        idx == width * y + x,
                        0 <= x < width,
                        1 <= y < height,
                ;
            }
        },
        Direction::South => {
            if y < height - 1 {
                assert(0 <= idx + width < width * height) by (nonlinear_arith)
                    requires
                        idx == width * y + x,
                        0 <= x < width,
                        0 <= y < height - 1,
                ;
            }
        },
        Direction::West => {
            if x > 0 {
                assert(0 <= idx - 1 < width * height) by (nonlinear_arith)
                    requires
                        idx == width * y + x,
                        0 < x < width,
                        0 <= y,
                        0 < width,
                        idx < width * height,
                ;
            }
        },
        Direction::East => {
            if x < width - 1 {
                assert(0 <= idx + 1 < width * height) by (nonlinear_arith)
                    requires
                        idx == width * y + x,
                        0 <= x < width - 1,
                        0 <= y < height,
                        0 < width,
                ;
            }
        },
    }
}

/// Neighbour lookup on a grid: the executable twin of `spec_neighbor`.
pub fn neighbor(width: usize, height: usize, idx: usize, d: Direction) -> (r: Option<usize>)
    requires
        idx < width * height,
        width * height <= usize::MAX,
    ensures
        (match r {
            Some(j) => spec_neighbor(width as int, height as int, idx as int, d) == Some(j as int)
                && j < width * height,
            None => spec_neighbor(width as int, height as int, idx as int, d) is None,
        }),
{
    proof {
        assert(width > 0) by (nonlinear_arith)
            requires
                idx < width * height,
        ;
        assert(height > 0) by (nonlinear_arith)
            requires
                idx < width * height,
        ;
        lemma_neighbor_in_bounds(width as int, height as int, idx as int, d);
    }
    let x: usize = idx % width;
    let y: usize = idx / width;
    match d {
        Direction::North => if y > 0 {
            Some(idx - width)
        } else {
            None
        },
        Direction::South => if y < height - 1 {
            Some(idx + width)
        } else {
            None
        },
        Direction::West => if x > 0 {
            Some(idx - 1)
        } else {
            None
        },
        Direction::East => if x < width - 1 {
            Some(idx + 1)
        } else {
            None
        },
    }
}

/// What the neighbour one step in `d` contributes to a conductor at `idx`:
/// 15 from a source, the neighbour's strength attenuated by one from a
/// carrying conductor, 15 from a powered repeater whose facing points back
/// at `idx`, and 0 from everything else (a missing neighbour included).
pub open spec fn dust_candidate(
    cells: Seq<Block>,
    width: int,
    height: int,
    idx: int,
    d: Direction,
) -> int {
    match spec_neighbor(width, height, idx, d) {
        Some(j) => match cells[j] {
            Block::RedstoneBlock(_) => MAX_SIGNAL as int,
            Block::RedstoneDust(b) => if b.power_level > 0 {
                spec_clamp(b.power_level - 1, MIN_SIGNAL as int, MAX_SIGNAL as int)
            } else {
                0
            },
            Block::Repeater(r) => if r.powered && r.facing == spec_oposite(d) {
                MAX_SIGNAL as int
            } else {
                0
            },
            _ => 0,
        },
        None => 0,
    }
}

/// The strength a conductor at `idx` takes next tick: the largest of the
/// four neighbour contributions (0 when none contributes).
pub open spec fn spec_dust_strength(cells: Seq<Block>, width: int, height: int, idx: int) -> int {
    let n = dust_candidate(cells, width, height, idx, Direction::North);
    let s = dust_candidate(cells, width, height, idx, Direction::South);
    let e = dust_candidate(cells, width, height, idx, Direction::East);
    let w = dust_candidate(cells, width, height, idx, Direction::West);
    vstd::math::max(vstd::math::max(n, s), vstd::math::max(e, w))
}

/// Every contribution, and hence the next strength, lies in `[0, 15]`.
pub proof fn lemma_dust_strength_bounds(cells: Seq<Block>, width: int, height: int, idx: int)
    ensures
        0 <= spec_dust_strength(cells, width, height, idx) <= MAX_SIGNAL,
{
}

/// Whether a repeater at `idx` facing `facing` is powered next tick: decided
/// by the single cell directly behind it (one step opposite to its facing).
/// A source powers it; a carrying conductor powers it; a powered repeater
/// powers it only when it faces the same way (repeaters chain straight
/// through, never sideways or head-on).
pub open spec fn spec_repeater_powered(
    cells: Seq<Block>,
    width: int,
    height: int,
    idx: int,
    facing: Direction,
) -> bool {
    match spec_neighbor(width, height, idx, spec_oposite(facing)) {
        Some(j) => match cells[j] {
            Block::RedstoneBlock(_) => true,
            Block::RedstoneDust(b) => b.power_level > 0,
            Block::Repeater(r) => r.facing == facing && r.powered,
            _ => false,
        },
        None => false,
    }
}

/// The transition rule, cell by cell: air, iron and sources are static;
/// a conductor is reborn with the recomputed strength; a repeater keeps its
/// facing and latches the recomputed powered bit.
pub open spec fn spec_step_cell(cells: Seq<Block>, width: int, height: int, idx: int) -> Block {
    match cells[idx] {
        Block::RedstoneDust(_) => Block::RedstoneDust(
            RedstoneDust { power_level: spec_dust_strength(cells, width, height, idx) as u8 },
        ),
        Block::Repeater(r) => Block::Repeater(
            Repeater {
                facing: r.facing,
                powered: spec_repeater_powered(cells, width, height, idx, r.facing),
            },
        ),
        _ => cells[idx],
    }
}

/// One whole tick at the specification level: the next generation is a pure
/// function of the current one, each cell given by `spec_step_cell`.
pub open spec fn spec_advance(cells: Seq<Block>, width: int, height: int) -> Seq<Block> {
    Seq::new(cells.len(), |i: int| spec_step_cell(cells, width, height, i))
}

/// All four in-bounds neighbours of `idx`, in North, South, East, West
/// order, each paired with the direction that reaches it.
pub open spec fn spec_four_sides(cells: Seq<Block>, width: int, height: int, idx: int) -> Seq<
    (Direction, Block),
> {
    side_entry(cells, width, height, idx, Direction::North) + side_entry(
        cells,
        width,
        height,
        idx,
        Direction::South,
    ) + side_entry(cells, width, height, idx, Direction::East) + side_entry(
        cells,
        width,
        height,
        idx,
        Direction::West,
    )
}

/// The neighbour in one direction as a zero- or one-element sequence.
pub open spec fn side_entry(
    cells: Seq<Block>,
    width: int,
    height: int,
    idx: int,
    d: Direction,
) -> Seq<(Direction, Block)> {
    match spec_neighbor(width, height, idx, d) {
        Some(j) => seq![(d, cells[j])],
        None => Seq::empty(),
    }
}

/// The blocks on the four sides of `idx` that are actually on the grid,
/// paired with the direction from `idx` towards each.
pub fn get_four_sides(idx: usize, world: &Grid) -> (r: Vec<(Direction, Block)>)
    requires
        world.wf(),
        idx < world@.len(),
    ensures
        r@ == spec_four_sides(world@, world.spec_width(), world.spec_height(), idx as int),
{
    let w: usize = world.width();
    let h: usize = world.height();
    // the cell count is a usize, which bounds w * h for the lookups below
    let _n: usize = world.len();
    proof {
        assert(w * h <= usize::MAX);
    }
    let mut blocks: Vec<(Direction, Block)> = Vec::new();
    if let Some(j) = neighbor(w, h, idx, Direction::North) {
        if let Some(b) = world.get(j) {
            blocks.push((Direction::North, *b));
        }
    }
    if let Some(j) = neighbor(w, h, idx, Direction::South) {
        if let Some(b) = world.get(j) {
            blocks.push((Direction::South, *b));
        }
    }
    if let Some(j) = neighbor(w, h, idx, Direction::East) {
        if let Some(b) = world.get(j) {
            blocks.push((Direction::East, *b));
        }
    }
    if let Some(j) = neighbor(w, h, idx, Direction::West) {
        if let Some(b) = world.get(j) {
            blocks.push((Direction::West, *b));
        }
    }
    proof {
        assert(blocks@ =~= spec_four_sides(
            world@,
            world.spec_width(),
            world.spec_height(),
            idx as int,
        ));
    }
    blocks
}

/// What one side contributes to the conductor at `idx`.
fn side_candidate(idx: usize, world: &Grid, d: Direction) -> (r: u8)
    requires
        world.wf(),
        idx < world@.len(),
    ensures
        r == dust_candidate(world@, world.spec_width(), world.spec_height(), idx as int, d),
{
    let w: usize = world.width();
    let h: usize = world.height();
    // the cell count is a usize, which bounds w * h for the lookups below
    let _n: usize = world.len();
    proof {
        assert(w * h <= usize::MAX);
    }
    match neighbor(w, h, idx, d) {
        Some(j) => match world.get(j) {
            Some(block) => match block {
                Block::RedstoneBlock(_) => MAX_SIGNAL,
                Block::RedstoneDust(b) => if b.power_level > 0 {
                    clamp(b.power_level - 1, MIN_SIGNAL, MAX_SIGNAL)
                } else {
                    0
                },
                Block::Repeater(r) => {
                    if r.powered && r.facing.is_oposite(&d) {
                        MAX_SIGNAL
                    } else {
                        0
                    }
                },
                _ => 0,
            },
            None => 0,
        },
        None => 0,
    }
}

/// Recompute a conductor's strength at `idx` from its four neighbours: the
/// wire ends up carrying the larger of what it already held and the
/// strongest neighbour contribution. The engine hands in a fresh wire of
/// strength 0, so the result is exactly the strongest contribution.
pub fn update_power_level(idx: usize, world: &Grid, wire: &mut RedstoneDust)
    requires
        world.wf(),
        idx < world@.len(),
    ensures
        final(wire).power_level == vstd::math::max(
            old(wire).power_level as int,
            spec_dust_strength(world@, world.spec_width(), world.spec_height(), idx as int),
        ),
{
    let n: u8 = side_candidate(idx, world, Direction::North);
    let s: u8 = side_candidate(idx, world, Direction::South);
    let e: u8 = side_candidate(idx, world, Direction::East);
    let w: u8 = side_candidate(idx, world, Direction::West);
    if n > wire.power_level {
        wire.power_level = n;
    }
    if s > wire.power_level {
        wire.power_level = s;
    }
    if e > wire.power_level {
        wire.power_level = e;
    }
    if w > wire.power_level {
        wire.power_level = w;
    }
}

/// Whether the repeater at `idx` facing `dir` is powered next tick, read
/// from the single cell behind it.
pub fn is_powered(idx: usize, dir: &Direction, world: &Grid) -> (r: bool)
    requires
        world.wf(),
        idx < world@.len(),
    ensures
        r == spec_repeater_powered(
            world@,
            world.spec_width(),
            world.spec_height(),
            idx as int,
            *dir,
        ),
{
    let w: usize = world.width();
    let h: usize = world.height();
    // the cell count is a usize, which bounds w * h for the lookups below
    let _n: usize = world.len();
    proof {
        assert(w * h <= usize::MAX);
    }
    match neighbor(w, h, idx, Direction::oposite(dir)) {
        Some(j) => match world.get(j) {
            Some(block) => match block {
                Block::RedstoneBlock(_) => true,
                Block::Repeater(r) => r.facing == *dir && r.powered,
                Block::RedstoneDust(b) => b.power_level > 0,
                _ => false,
            },
            None => false,
        },
        None => false,
    }
}

/// One tick: the next generation, computed entirely from the current one.
/// The result is a fresh grid of the same extent whose every cell is the
/// image of the old grid under the transition rule — so two calls on equal
/// grids give equal results, and traversal order cannot matter.
pub fn advance_world(world: &Grid) -> (r: Grid)
    requires
        world.wf(),
    ensures
        r.wf(),
        r.spec_width() == world.spec_width(),
        r.spec_height() == world.spec_height(),
        r@ == spec_advance(world@, world.spec_width(), world.spec_height()),
{
    let w: usize = world.width();
    let h: usize = world.height();
    let n: usize = world.len();
    let mut new_world: Grid = Grid::new(w, h, Block::from(Air::new()));
    let mut idx: usize = 0;
    while idx < n
        invariant
            world.wf(),
            w == world.spec_width(),
            h == world.spec_height(),
            n == world@.len(),
            idx <= n,
            new_world.wf(),
            new_world.spec_width() == w,
            new_world.spec_height() == h,
            new_world@.len() == n,
            forall|i: int|
                0 <= i < idx ==> new_world@[i] == spec_step_cell(world@, w as int, h as int, i),
        decreases n - idx,
    {
        if let Some(block) = world.get(idx) {
            match block {
                Block::Air(_) | Block::Iron(_) | Block::RedstoneBlock(_) => {
                    new_world.set(idx, *block);
                },
                Block::RedstoneDust(_) => {
                    let mut new_block = RedstoneDust::new();
                    update_power_level(idx, world, &mut new_block);
                    proof {
                        lemma_dust_strength_bounds(world@, w as int, h as int, idx as int);
                    }
                    new_world.set(idx, Block::from(new_block));
                },
                Block::Repeater(r) => {
                    let mut new_block = Repeater::new(r.facing);
                    new_block.powered = is_powered(idx, &r.facing, world);
                    new_world.set(idx, Block::from(new_block));
                },
            }
        }
        idx = idx + 1;
    }
    proof {
        assert(new_world@ =~= spec_advance(world@, world.spec_width(), world.spec_height()));
    }
    new_world
}

} // verus!

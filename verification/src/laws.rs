//! The engine's global guarantees, each proved against the transition rule:
//! determinism of a tick, saturation next to a source, directional gating,
//! and the stable decay profile of a straight powered line.

use vstd::prelude::*;
use vstd::arithmetic::div_mod::lemma_fundamental_div_mod;
use vstd::arithmetic::div_mod::lemma_small_mod;
use crate::blocks::Block;
use crate::blocks::Direction;
use crate::blocks::RedstoneBlock;
use crate::blocks::RedstoneDust;
use crate::blocks::Repeater;
use crate::engine::dust_candidate;
use crate::engine::MAX_SIGNAL;
use crate::engine::spec_advance;
use crate::engine::spec_dust_strength;
use crate::engine::spec_neighbor;
use crate::engine::spec_step_cell;

verus! {

/// Determinism: a tick is a pure function of the grid contents and extent.
/// Two generations that agree cell for cell step to generations that agree
/// cell for cell — there is no hidden input to the rule.
pub proof fn lemma_advance_deterministic(a: Seq<Block>, b: Seq<Block>, width: int, height: int)
    requires
        a == b,
    ensures
        spec_advance(a, width, height) == spec_advance(b, width, height),
{
}

/// Boundary safety: a step past the grid edge is no neighbour, and a
/// missing neighbour contributes no signal to a conductor. Together with
/// `advance_world` being total over every well-formed grid, edge cells are
/// handled like any other.
pub proof fn lemma_missing_neighbor_is_silent(
    cells: Seq<Block>,
    width: int,
    height: int,
    idx: int,
    d: Direction,
)
    requires
        spec_neighbor(width, height, idx, d) is None,
    ensures
        dust_candidate(cells, width, height, idx, d) == 0,
{
}

/// Source saturation: a conductor with a source on any side carries the
/// full strength of 15 after one tick, whatever its other neighbours hold.
pub proof fn lemma_source_saturation(
    cells: Seq<Block>,
    width: int,
    height: int,
    idx: int,
    d: Direction,
)
    requires
        0 <= idx < cells.len(),
        cells[idx] is RedstoneDust,
        spec_neighbor(width, height, idx, d) matches Some(j) && cells[j] is RedstoneBlock,
    ensures
        spec_step_cell(cells, width, height, idx) == Block::RedstoneDust(
            RedstoneDust { power_level: MAX_SIGNAL },
        ),
{
    assert(spec_dust_strength(cells, width, height, idx) == MAX_SIGNAL);
}

/// Gate directionality: a repeater is powered by the repeater directly
/// behind it exactly when that one is powered and faces the same way. In
/// particular an East-facing repeater fed from the West by a powered
/// East-facing repeater turns on, while the same feed facing North leaves
/// it off.
pub proof fn lemma_gate_directionality(
    cells: Seq<Block>,
    width: int,
    height: int,
    idx: int,
    down: Repeater,
    up: Repeater,
)
    requires
        0 <= idx < cells.len(),
        cells[idx] == Block::Repeater(down),
        down.facing == Direction::East,
        spec_neighbor(width, height, idx, Direction::West) matches Some(j) && cells[j]
            == Block::Repeater(up),
        up.powered,
    ensures
        spec_step_cell(cells, width, height, idx) == Block::Repeater(
            Repeater { facing: Direction::East, powered: (up.facing == Direction::East) },
        ),
{
}

/// Strength of the conductor at line position `k` after `t` ticks: the wave
/// front has reached position `k` once `k <= t`, and from then on the cell
/// holds `16 - k` (clamped at 0), i.e. 15 at the cell next to the source,
/// one less per further step.
pub open spec fn line_pl(k: int, t: int) -> int {
    if k <= t {
        if 16 - k >= 0 {
            16 - k
        } else {
            0
        }
    } else {
        0
    }
}

/// A 1-row world of length `n`: a source at index 0 and conductors
/// everywhere else, the conductor at `k` carrying `line_pl(k, t)`.
pub open spec fn line_state(n: int, t: int) -> Seq<Block> {
    Seq::new(
        n as nat,
        |k: int|
            if k == 0 {
                Block::RedstoneBlock(RedstoneBlock {  })
            } else {
                Block::RedstoneDust(RedstoneDust { power_level: line_pl(k, t) as u8 })
            },
    )
}

/// `t` ticks of the engine, at the specification level.
pub open spec fn iterate_advance(cells: Seq<Block>, width: int, height: int, t: nat) -> Seq<Block>
    decreases t,
{
    if t == 0 {
        cells
    } else {
        spec_advance(iterate_advance(cells, width, height, (t - 1) as nat), width, height)
    }
}

/// On a 1-row grid an in-bounds index is its own column and sits in row 0.
proof fn lemma_row0(n: int, k: int)
    requires
        0 <= k < n,
    ensures
        k % n == k,
        k / n == 0,
{
    lemma_small_mod(k as nat, n as nat);
    lemma_fundamental_div_mod(k, n);
    assert(k / n == 0) by (nonlinear_arith)
        requires
            0 <= k < n,
            k == n * (k / n) + k % n,
            k % n == k,
    ;
}

/// One tick moves the line profile one step forward: the wave front
/// advances by one cell and every already-reached cell keeps its value.
pub proof fn lemma_line_step(n: int, t: int)
    requires
        1 <= n,
        0 <= t,
    ensures
        spec_advance(line_state(n, t), n, 1) == line_state(n, t + 1),
{
    let cur = line_state(n, t);
    let nxt = spec_advance(cur, n, 1);
    assert forall|k: int| 0 <= k < n implies nxt[k] == line_state(n, t + 1)[k] by {
        lemma_row0(n, k);
        if k > 0 {
            assert(spec_neighbor(n, 1, k, Direction::North) is None);
            assert(spec_neighbor(n, 1, k, Direction::South) is None);
            assert(spec_neighbor(n, 1, k, Direction::West) == Some(k - 1));
            if k < n - 1 {
                assert(spec_neighbor(n, 1, k, Direction::East) == Some(k + 1));
            } else {
                assert(spec_neighbor(n, 1, k, Direction::East) is None);
            }
            assert(spec_dust_strength(cur, n, 1, k) == line_pl(k, t + 1));
        }
    };
    assert(nxt =~= line_state(n, t + 1));
}

/// After `t` ticks from the cold start (all conductors at 0), the line is
/// exactly the profile `line_state(n, t)`.
pub proof fn lemma_line_after_ticks(n: int, t: nat)
    requires
        1 <= n,
    ensures
        iterate_advance(line_state(n, 0), n, 1, t) == line_state(n, t as int),
    decreases t,
{
    if t > 0 {
        lemma_line_after_ticks(n, (t - 1) as nat);
        lemma_line_step(n, t - 1);
    }
}

/// Decay monotonicity: take a straight line of conductors with a source at
/// one end and no other input. After `n - 1` ticks (or any number more) the
/// conductor at position `i`, 0-indexed from the source, carries exactly
/// `max(15 - i, 0)`, and the whole line is a fixed point of the engine.
pub proof fn lemma_decay_monotonicity(n: int, t: nat, i: int)
    requires
        1 <= n,
        n - 1 <= t,
        0 <= i < n - 1,
    ensures
        iterate_advance(line_state(n, 0), n, 1, t)[i + 1] == Block::RedstoneDust(
            RedstoneDust {
                power_level: (if 15 - i >= 0 {
                    15 - i
                } else {
                    0
                }) as u8,
            },
        ),
        spec_advance(iterate_advance(line_state(n, 0), n, 1, t), n, 1) == iterate_advance(
            line_state(n, 0),
            n,
            1,
            t,
        ),
{
    lemma_line_after_ticks(n, t);
    lemma_line_step(n, t as int);
    assert(line_state(n, t as int + 1) =~= line_state(n, t as int));
}

} // verus!

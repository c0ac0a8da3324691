//! The cell model: the four-way direction type and the closed set of block
//! kinds that can occupy a grid cell, together with the placement equality
//! that the edit interface uses to recognise a no-op placement.

use vstd::prelude::*;

verus! {

/// The four cardinal directions a `Repeater` can face.
#[derive(Clone, Copy, Debug, PartialEq, Eq, Structural)]
pub enum Direction {
    North,
    South,
    West,
    East,
}

/// The direction pointing the opposite way: North <-> South, West <-> East.
pub open spec fn spec_oposite(dir: Direction) -> Direction {
    match dir {
        Direction::North => Direction::South,
        Direction::South => Direction::North,
        Direction::West => Direction::East,
        Direction::East => Direction::West,
    }
}

impl Direction {
    pub fn oposite(dir: &Direction) -> (r: Direction)
        ensures
            r == spec_oposite(*dir),
    {
        match dir {
            Self::North => Self::South,
            Self::South => Self::North,
            Self::West => Self::East,
            Self::East => Self::West,
        }
    }

    /// True when `self` points the opposite way from `dir`.
    pub fn is_oposite(&self, dir: &Direction) -> (r: bool)
        ensures
            r == (*self == spec_oposite(*dir)),
    {
        *self == Direction::oposite(dir)
    }
}

/// Opposite is an involution: taking it twice gives the direction back.
pub proof fn lemma_oposite_involutive(dir: Direction)
    ensures
        spec_oposite(spec_oposite(dir)) == dir,
{
}

/// Empty space: carries no signal, never propagates.
#[derive(Clone, Copy, Debug, PartialEq, Eq, Structural)]
pub struct Air {
}

impl Air {
    pub fn new() -> (r: Self)
        ensures
            r == (Air {  }),
    {
        Self {  }
    }
}

/// Opaque, non-conductive filler: purely inert.
#[derive(Clone, Copy, Debug, PartialEq, Eq, Structural)]
pub struct Iron {
}

impl Iron {
    pub fn new() -> (r: Self)
        ensures
            r == (Iron {  }),
    {
        Self {  }
    }
}

/// Directionless wire; `power_level` is recomputed every tick from the
/// neighbours and is the only mutable state of this kind.
#[derive(Clone, Copy, Debug, PartialEq, Eq, Structural)]
pub struct RedstoneDust {
    pub power_level: u8,
}

impl RedstoneDust {
    pub fn new() -> (r: Self)
        ensures
            r == (RedstoneDust { power_level: 0 }),
    {
        Self { power_level: 0 }
    }
}

/// Constant emitter: always feeds maximum strength to all four neighbours.
#[derive(Clone, Copy, Debug, PartialEq, Eq, Structural)]
pub struct RedstoneBlock {
}

impl RedstoneBlock {
    pub fn new() -> (r: Self)
        ensures
            r == (RedstoneBlock {  }),
    {
        Self {  }
    }
}

/// Directional one-tick-latched repeater: `facing` is placement-time state,
/// `powered` is recomputed every tick from the single cell behind it.
#[derive(Clone, Copy, Debug, PartialEq, Eq, Structural)]
pub struct Repeater {
    pub facing: Direction,
    pub powered: bool,
}

impl Repeater {
    pub fn new(facing: Direction) -> (r: Self)
        ensures
            r == (Repeater { facing, powered: false }),
    {
        Self { facing, powered: false }
    }
}

/// One grid cell: a closed set of kinds, each carrying only the state
/// relevant to that kind.
#[derive(Clone, Copy, Debug)]
pub enum Block {
    RedstoneDust(RedstoneDust),
    RedstoneBlock(RedstoneBlock),
    Iron(Iron),
    Air(Air),
    Repeater(Repeater),
}

/// Placement equality: kind equality for the stateless kinds and for dust
/// (whose strength is transient), and (kind, facing) equality for repeaters.
/// The edit layer uses this to skip a placement of the very block type the
/// player already put down, even if decayed state differs.
pub open spec fn kind_eq(a: Block, b: Block) -> bool {
    match (a, b) {
        (Block::Air(_), Block::Air(_)) => true,
        (Block::Iron(_), Block::Iron(_)) => true,
        (Block::RedstoneDust(_), Block::RedstoneDust(_)) => true,
        (Block::RedstoneBlock(_), Block::RedstoneBlock(_)) => true,
        (Block::Repeater(x), Block::Repeater(y)) => x.facing == y.facing,
        _ => false,
    }
}

impl PartialEq for Block {
    /// `==` on blocks is placement equality, not field equality.
    fn eq(&self, other: &Self) -> (r: bool) {
        match (self, other) {
            (Block::Air(_), Block::Air(_)) => true,
            (Block::Iron(_), Block::Iron(_)) => true,
            (Block::RedstoneDust(_), Block::RedstoneDust(_)) => true,
            (Block::RedstoneBlock(_), Block::RedstoneBlock(_)) => true,
            (Block::Repeater(x), Block::Repeater(y)) => x.facing == y.facing,
            _ => false,
        }
    }
}

impl vstd::std_specs::cmp::PartialEqSpecImpl for Block {
    open spec fn obeys_eq_spec() -> bool {
        true
    }

    open spec fn eq_spec(&self, other: &Self) -> bool {
        kind_eq(*self, *other)
    }
}

impl Block {
    /// Reorient the block: only a repeater has an orientation; every other
    /// kind is left untouched.
    pub fn update(&mut self, dir: Direction)
        ensures
            (match *old(self) {
                Block::Repeater(r) => *final(self) == Block::Repeater(
                    Repeater { facing: dir, powered: r.powered },
                ),
                _ => *final(self) == *old(self),
            }),
    {
        match self {
            Self::RedstoneDust(_) | Self::RedstoneBlock(_) | Self::Iron(_) | Self::Air(_) => {},
            Self::Repeater(r) => r.facing = dir,
        }
    }

    /// Field-exact equality, for callers (persistence, tests) that must tell
    /// apart two blocks whose transient state differs.
    pub fn same_block(&self, other: &Block) -> (r: bool)
        ensures
            r == (*self == *other),
    {
        match (self, other) {
            (Block::Air(_), Block::Air(_)) => true,
            (Block::Iron(_), Block::Iron(_)) => true,
            (Block::RedstoneDust(a), Block::RedstoneDust(b)) => a.power_level == b.power_level,
            (Block::RedstoneBlock(_), Block::RedstoneBlock(_)) => true,
            (Block::Repeater(x), Block::Repeater(y)) => x.facing == y.facing && x.powered
                == y.powered,
            _ => false,
        }
    }
}

impl From<Air> for Block {
    fn from(air: Air) -> (r: Self) {
        Self::Air(air)
    }
}

impl vstd::std_specs::convert::FromSpecImpl<Air> for Block {
    open spec fn obeys_from_spec() -> bool {
        true
    }

    open spec fn from_spec(v: Air) -> Self {
        Block::Air(v)
    }
}

impl From<Iron> for Block {
    fn from(iron: Iron) -> (r: Self) {
        Self::Iron(iron)
    }
}

impl vstd::std_specs::convert::FromSpecImpl<Iron> for Block {
    open spec fn obeys_from_spec() -> bool {
        true
    }

    open spec fn from_spec(v: Iron) -> Self {
        Block::Iron(v)
    }
}

impl From<RedstoneDust> for Block {
    fn from(rd: RedstoneDust) -> (r: Self) {
        Self::RedstoneDust(rd)
    }
}

impl vstd::std_specs::convert::FromSpecImpl<RedstoneDust> for Block {
    open spec fn obeys_from_spec() -> bool {
        true
    }

    open spec fn from_spec(v: RedstoneDust) -> Self {
        Block::RedstoneDust(v)
    }
}

impl From<RedstoneBlock> for Block {
    fn from(rb: RedstoneBlock) -> (r: Self) {
        Self::RedstoneBlock(rb)
    }
}

impl vstd::std_specs::convert::FromSpecImpl<RedstoneBlock> for Block {
    open spec fn obeys_from_spec() -> bool {
        true
    }

    open spec fn from_spec(v: RedstoneBlock) -> Self {
        Block::RedstoneBlock(v)
    }
}

impl From<Repeater> for Block {
    fn from(rp: Repeater) -> (r: Self) {
        Self::Repeater(rp)
    }
}

impl vstd::std_specs::convert::FromSpecImpl<Repeater> for Block {
    open spec fn obeys_from_spec() -> bool {
        true
    }

    open spec fn from_spec(v: Repeater) -> Self {
        Block::Repeater(v)
    }
}

} // verus!

//! Persistence: a grid serialised to bytes and back, preserving every
//! cell's kind tag and kind-specific fields exactly, so that a reloaded
//! world behaves bit-identically on the next tick.
//!
//! The format is sixteen header bytes — width then height, each as eight
//! little-endian bytes — followed by three bytes per cell in row-major
//! order: a kind tag, then the kind's fields, zero-padded.

use vstd::prelude::*;
use vstd::arithmetic::div_mod::lemma_fundamental_div_mod;
use crate::blocks::Block;
use crate::blocks::Direction;
use crate::grid::Grid;

verus! {

/// Malformed persisted state: the bytes are not the serialisation of any
/// grid. Surfaced to the caller, never papered over with a default world.
#[derive(Clone, Copy, Debug, PartialEq, Eq, Structural)]
pub enum DeserializationError {
    Malformed,
}

/// `256^k`.
pub open spec fn pow256(k: nat) -> int
    decreases k,
{
    if k == 0 {
        1
    } else {
        256 * pow256((k - 1) as nat)
    }
}

/// A non-negative value as `k` little-endian base-256 digits.
pub open spec fn le_bytes(v: int, k: nat) -> Seq<u8>
    decreases k,
{
    if k == 0 {
        Seq::empty()
    } else {
        seq![(v % 256) as u8] + le_bytes(v / 256, (k - 1) as nat)
    }
}

/// The value of a little-endian byte string.
pub open spec fn le_val(b: Seq<u8>) -> int
    decreases b.len(),
{
    if b.len() == 0 {
        0
    } else {
        b[0] + 256 * le_val(b.drop_first())
    }
}

pub proof fn lemma_pow256_pos(k: nat)
    ensures
        pow256(k) >= 1,
    decreases k,
{
    if k > 0 {
        lemma_pow256_pos((k - 1) as nat);
    }
}

pub proof fn lemma_pow256_le(a: nat, b: nat)
    requires
        a <= b,
    ensures
        pow256(a) <= pow256(b),
    decreases b,
{
    if a < b && b > 0 {
        lemma_pow256_le(a, (b - 1) as nat);
        lemma_pow256_pos((b - 1) as nat);
    }
}

pub proof fn lemma_le_bytes_len(v: int, k: nat)
    ensures
        le_bytes(v, k).len() == k,
    decreases k,
{
    if k > 0 {
        lemma_le_bytes_len(v / 256, (k - 1) as nat);
    }
}

/// A little-endian byte string of length `k` holds a value in
/// `[0, 256^k)`.
pub proof fn lemma_le_val_bound(b: Seq<u8>)
    ensures
        0 <= le_val(b) < pow256(b.len()),
    decreases b.len(),
{
    if b.len() > 0 {
        lemma_le_val_bound(b.drop_first());
    }
}

/// Writing a value in `[0, 256^k)` as `k` digits and reading it back gives
/// the value.
pub proof fn lemma_le_roundtrip(v: int, k: nat)
    requires
        0 <= v < pow256(k),
    ensures
        le_val(le_bytes(v, k)) == v,
    decreases k,
{
    if k > 0 {
        lemma_fundamental_div_mod(v, 256);
        assert(v / 256 < pow256((k - 1) as nat)) by (nonlinear_arith)
            requires
                0 <= v < 256 * pow256((k - 1) as nat),
                v == 256 * (v / 256) + v % 256,
                0 <= v % 256 < 256,
        ;
        assert(v / 256 >= 0) by (nonlinear_arith)
            requires
                0 <= v,
                v == 256 * (v / 256) + v % 256,
                0 <= v % 256 < 256,
        ;
        lemma_le_roundtrip(v / 256, (k - 1) as nat);
        let b = le_bytes(v, k);
        assert(b.drop_first() =~= le_bytes(v / 256, (k - 1) as nat));
    }
}

/// The wire code of a direction.
pub open spec fn dir_code(d: Direction) -> int {
    match d {
        Direction::North => 0,
        Direction::South => 1,
        Direction::West => 2,
        Direction::East => 3,
    }
}

/// The direction of a wire code, if it is one.
pub open spec fn code_dir(c: int) -> Option<Direction> {
    if c == 0 {
        Some(Direction::North)
    } else if c == 1 {
        Some(Direction::South)
    } else if c == 2 {
        Some(Direction::West)
    } else if c == 3 {
        Some(Direction::East)
    } else {
        None
    }
}

/// One cell as three bytes: a kind tag, then the kind's fields, zero-padded.
pub open spec fn encode_cell(c: Block) -> Seq<u8> {
    match c {
        Block::Air(_) => seq![0u8, 0u8, 0u8],
        Block::Iron(_) => seq![1u8, 0u8, 0u8],
        Block::RedstoneDust(b) => seq![2u8, b.power_level, 0u8],
        Block::RedstoneBlock(_) => seq![3u8, 0u8, 0u8],
        Block::Repeater(r) => seq![
            4u8,
            dir_code(r.facing) as u8,
            if r.powered {
                1u8
            } else {
                0u8
            },
        ],
    }
}

/// The cell of a three-byte record, if the bytes are one.
pub open spec fn decode_cell(b: Seq<u8>) -> Option<Block> {
    if b.len() != 3 {
        None
    } else if b[0] == 0 && b[1] == 0 && b[2] == 0 {
        Some(Block::Air(crate::blocks::Air {  }))
    } else if b[0] == 1 && b[1] == 0 && b[2] == 0 {
        Some(Block::Iron(crate::blocks::Iron {  }))
    } else if b[0] == 2 && b[2] == 0 {
        Some(Block::RedstoneDust(crate::blocks::RedstoneDust { power_level: b[1] }))
    } else if b[0] == 3 && b[1] == 0 && b[2] == 0 {
        Some(Block::RedstoneBlock(crate::blocks::RedstoneBlock {  }))
    } else if b[0] == 4 && b[1] <= 3 && b[2] <= 1 {
        match code_dir(b[1] as int) {
            Some(d) => Some(
                Block::Repeater(crate::blocks::Repeater { facing: d, powered: b[2] == 1 }),
            ),
            None => None,
        }
    } else {
        None
    }
}

/// Every cell record is exactly three bytes.
pub proof fn lemma_encode_cell_len(c: Block)
    ensures
        encode_cell(c).len() == 3,
{
    match c {
        Block::Air(_) => {},
        Block::Iron(_) => {},
        Block::RedstoneDust(_) => {},
        Block::RedstoneBlock(_) => {},
        Block::Repeater(_) => {},
    }
}

/// A cell record decodes back to the very cell.
pub proof fn lemma_cell_roundtrip(c: Block)
    ensures
        decode_cell(encode_cell(c)) == Some(c),
{
}

/// All cells, three bytes each, in row-major order.
pub open spec fn encode_cells(cells: Seq<Block>) -> Seq<u8>
    decreases cells.len(),
{
    if cells.len() == 0 {
        Seq::empty()
    } else {
        encode_cell(cells[0]) + encode_cells(cells.drop_first())
    }
}

pub proof fn lemma_encode_cells_len(cells: Seq<Block>)
    ensures
        encode_cells(cells).len() == 3 * cells.len(),
    decreases cells.len(),
{
    if cells.len() > 0 {
        lemma_encode_cells_len(cells.drop_first());
    }
}

/// Appending one cell appends its three bytes.
pub proof fn lemma_encode_cells_push(cells: Seq<Block>, c: Block)
    ensures
        encode_cells(cells.push(c)) == encode_cells(cells) + encode_cell(c),
    decreases cells.len(),
{
    lemma_encode_cell_len(c);
    if cells.len() == 0 {
        assert(cells.push(c).drop_first() =~= Seq::<Block>::empty());
        assert(cells.push(c)[0] == c);
        assert(encode_cells(cells.push(c)) == encode_cell(c) + encode_cells(Seq::<Block>::empty()));
        assert(encode_cells(cells.push(c)) =~= encode_cells(cells) + encode_cell(c));
    } else {
        lemma_encode_cell_len(cells[0]);
        lemma_encode_cells_push(cells.drop_first(), c);
        assert(cells.push(c).drop_first() =~= cells.drop_first().push(c));
        assert(cells.push(c)[0] == cells[0]);
        assert(encode_cells(cells.push(c)) == encode_cell(cells[0]) + (encode_cells(
            cells.drop_first(),
        ) + encode_cell(c)));
        assert(encode_cells(cells.push(c)) =~= encode_cells(cells) + encode_cell(c));
    }
}

/// The three bytes of cell `i` sit at offset `3 * i` of the cell section.
pub proof fn lemma_encode_cells_index(cells: Seq<Block>, i: int)
    requires
        0 <= i < cells.len(),
    ensures
        encode_cells(cells).subrange(3 * i, 3 * i + 3) == encode_cell(cells[i]),
    decreases i,
{
    lemma_encode_cells_len(cells.drop_first());
    if i == 0 {
        assert(encode_cells(cells).subrange(0, 3) =~= encode_cell(cells[0]));
    } else {
        lemma_encode_cells_index(cells.drop_first(), i - 1);
        assert(encode_cells(cells).subrange(3 * i, 3 * i + 3) =~= encode_cells(
            cells.drop_first(),
        ).subrange(3 * (i - 1), 3 * (i - 1) + 3));
    }
}

/// The full serialised form of a grid: width, height, then every cell.
pub open spec fn spec_serialize(width: int, height: int, cells: Seq<Block>) -> Seq<u8> {
    le_bytes(width, 8) + le_bytes(height, 8) + encode_cells(cells)
}

/// What a byte string deserialises to, if anything: the extent must fit the
/// machine, the length must match it exactly, and every cell record must
/// decode.
pub open spec fn spec_deserialize(b: Seq<u8>) -> Option<(int, int, Seq<Block>)> {
    if b.len() < 16 {
        None
    } else {
        let w = le_val(b.subrange(0, 8));
        let h = le_val(b.subrange(8, 16));
        if w <= usize::MAX && h <= usize::MAX && w * h <= usize::MAX && b.len() == 16 + 3 * (w * h)
            && (forall|i: int|
            0 <= i < w * h ==> #[trigger] decode_cell(b.subrange(16 + 3 * i, 16 + 3 * i + 3))
                is Some) {
            Some(
                (
                    w,
                    h,
                    Seq::new(
                        (w * h) as nat,
                        |i: int| decode_cell(b.subrange(16 + 3 * i, 16 + 3 * i + 3)).unwrap(),
                    ),
                ),
            )
        } else {
            None
        }
    }
}

/// Round trip: deserialising a serialised grid gives back the very grid,
/// kind and fields exact, for every valid extent.
pub proof fn lemma_round_trip(width: int, height: int, cells: Seq<Block>)
    requires
        0 <= width <= usize::MAX,
        0 <= height <= usize::MAX,
        width * height <= usize::MAX,
        cells.len() == width * height,
    ensures
        spec_deserialize(spec_serialize(width, height, cells)) == Some((width, height, cells)),
{
    let b = spec_serialize(width, height, cells);
    lemma_le_bytes_len(width, 8);
    lemma_le_bytes_len(height, 8);
    lemma_encode_cells_len(cells);
    assert(usize::MAX < pow256(8)) by {
        reveal_with_fuel(pow256, 9);
    }
    assert(b.subrange(0, 8) =~= le_bytes(width, 8));
    assert(b.subrange(8, 16) =~= le_bytes(height, 8));
    lemma_le_roundtrip(width, 8);
    lemma_le_roundtrip(height, 8);
    assert forall|i: int| 0 <= i < width * height implies #[trigger] decode_cell(
        b.subrange(16 + 3 * i, 16 + 3 * i + 3),
    ) == Some(cells[i]) by {
        lemma_encode_cells_index(cells, i);
        assert(b.subrange(16 + 3 * i, 16 + 3 * i + 3) =~= encode_cells(cells).subrange(
            3 * i,
            3 * i + 3,
        ));
        lemma_cell_roundtrip(cells[i]);
    };
    let t = spec_deserialize(b);
    assert(t is Some);
    assert(t.unwrap().2 =~= cells);
}

/// Append `v` as `k` little-endian bytes.
fn push_le(out: &mut Vec<u8>, v: u64, k: usize)
    ensures
        final(out)@ == old(out)@ + le_bytes(v as int, k as nat),
    decreases k,
{
    if k == 0 {
        proof {
            assert(out@ =~= out@ + le_bytes(v as int, 0));
        }
    } else {
        let b: u8 = (v % 256) as u8;
        out.push(b);
        push_le(out, v / 256, k - 1);
        proof {
            assert(out@ =~= old(out)@ + le_bytes(v as int, k as nat));
        }
    }
}

/// Append one cell as its three-byte record.
fn push_cell(out: &mut Vec<u8>, c: &Block)
    ensures
        final(out)@ == old(out)@ + encode_cell(*c),
{
    match c {
        Block::Air(_) => {
            out.push(0);
            out.push(0);
            out.push(0);
            proof {
                assert(out@ =~= old(out)@ + encode_cell(*c));
            }
        },
        Block::Iron(_) => {
            out.push(1);
            out.push(0);
            out.push(0);
            proof {
                assert(out@ =~= old(out)@ + encode_cell(*c));
            }
        },
        Block::RedstoneDust(b) => {
            out.push(2);
            out.push(b.power_level);
            out.push(0);
            proof {
                assert(out@ =~= old(out)@ + encode_cell(*c));
            }
        },
        Block::RedstoneBlock(_) => {
            out.push(3);
            out.push(0);
            out.push(0);
            proof {
                assert(out@ =~= old(out)@ + encode_cell(*c));
            }
        },
        Block::Repeater(r) => {
            let code: u8 = match r.facing {
                Direction::North => 0,
                Direction::South => 1,
                Direction::West => 2,
                Direction::East => 3,
            };
            out.push(4);
            out.push(code);
            out.push(if r.powered {
                1
            } else {
                0
            });
            proof {
                assert(out@ =~= old(out)@ + encode_cell(*c));
            }
        },
    }
}

/// The grid as bytes: the full serialised form, headers then every cell.
pub fn serialize_world(world: &Grid) -> (r: Vec<u8>)
    requires
        world.wf(),
    ensures
        r@ == spec_serialize(world.spec_width(), world.spec_height(), world@),
{
    let mut out: Vec<u8> = Vec::new();
    push_le(&mut out, world.width() as u64, 8);
    push_le(&mut out, world.height() as u64, 8);
    proof {
        assert(out@ =~= le_bytes(world.spec_width(), 8) + le_bytes(world.spec_height(), 8)
            + encode_cells(world@.subrange(0, 0)));
    }
    let n: usize = world.len();
    let mut i: usize = 0;
    while i < n
        invariant
            world.wf(),
            n == world@.len(),
            i <= n,
            out@ == le_bytes(world.spec_width(), 8) + le_bytes(world.spec_height(), 8)
                + encode_cells(world@.subrange(0, i as int)),
        decreases n - i,
    {
        if let Some(block) = world.get(i) {
            push_cell(&mut out, block);
        }
        proof {
            assert(world@.subrange(0, i + 1) =~= world@.subrange(0, i as int).push(
                world@[i as int],
            ));
            lemma_encode_cells_push(world@.subrange(0, i as int), world@[i as int]);
            assert(out@ =~= le_bytes(world.spec_width(), 8) + le_bytes(world.spec_height(), 8)
                + encode_cells(world@.subrange(0, i + 1)));
        }
        i = i + 1;
    }
    proof {
        assert(world@.subrange(0, n as int) =~= world@);
    }
    out
}

/// Read `k <= 8` little-endian bytes starting at `start`.
fn read_le(bytes: &Vec<u8>, start: usize, k: usize) -> (r: u64)
    requires
        k <= 8,
        start + k <= bytes@.len(),
        start + k <= usize::MAX,
    ensures
        r == le_val(bytes@.subrange(start as int, start as int + k as int)),
    decreases k,
{
    if k == 0 {
        proof {
            assert(bytes@.subrange(start as int, start as int) =~= Seq::<u8>::empty());
        }
        0
    } else {
        let rest: u64 = read_le(bytes, start + 1, k - 1);
        proof {
            let tail = bytes@.subrange(start + 1, start as int + k as int);
            lemma_le_val_bound(tail);
            lemma_pow256_le(tail.len() as nat, 7);
            assert(pow256(7) == 0x100_0000_0000_0000) by {
                reveal_with_fuel(pow256, 8);
            }
            assert(bytes@.subrange(start as int, start as int + k as int).drop_first() =~= tail);
        }
        bytes[start] as u64 + 256 * rest
    }
}

/// One three-byte cell record decoded, if it is one.
fn decode_cell_bytes(t: u8, a: u8, b: u8) -> (r: Option<Block>)
    ensures
        r == decode_cell(seq![t, a, b]),
{
    if t == 0 && a == 0 && b == 0 {
        Some(Block::Air(crate::blocks::Air {  }))
    } else if t == 1 && a == 0 && b == 0 {
        Some(Block::Iron(crate::blocks::Iron {  }))
    } else if t == 2 && b == 0 {
        Some(Block::RedstoneDust(crate::blocks::RedstoneDust { power_level: a }))
    } else if t == 3 && a == 0 && b == 0 {
        Some(Block::RedstoneBlock(crate::blocks::RedstoneBlock {  }))
    } else if t == 4 && a <= 3 && b <= 1 {
        let facing: Direction = if a == 0 {
            Direction::North
        } else if a == 1 {
            Direction::South
        } else if a == 2 {
            Direction::West
        } else {
            Direction::East
        };
        Some(Block::Repeater(crate::blocks::Repeater { facing, powered: b == 1 }))
    } else {
        None
    }
}

/// The grid the bytes serialise, or `Malformed` exactly when they are not
/// the serialisation of any grid that fits the machine.
pub fn deserialize_world(bytes: &Vec<u8>) -> (r: Result<Grid, DeserializationError>)
    ensures
        (match spec_deserialize(bytes@) {
            Some(t) => r matches Ok(g) && g.wf() && g.spec_width() == t.0 && g.spec_height()
                == t.1 && g@ == t.2,
            None => r == Result::<Grid, DeserializationError>::Err(
                DeserializationError::Malformed,
            ),
        }),
{
    let len: usize = bytes.len();
    if len < 16 {
        return Err(DeserializationError::Malformed);
    }
    let w64: u64 = read_le(bytes, 0, 8);
    let h64: u64 = read_le(bytes, 8, 8);
    if w64 > usize::MAX as u64 || h64 > usize::MAX as u64 {
        return Err(DeserializationError::Malformed);
    }
    let w: usize = w64 as usize;
    let h: usize = h64 as usize;
    if h != 0 && w > usize::MAX / h {
        proof {
            lemma_fundamental_div_mod(usize::MAX as int, h as int);
            assert(w * h > usize::MAX) by (nonlinear_arith)
                requires
                    h > 0,
                    w > usize::MAX as int / h as int,
                    usize::MAX as int == h * (usize::MAX as int / h as int) + (usize::MAX as int
                        % h as int),
                    0 <= (usize::MAX as int % h as int),
                    (usize::MAX as int % h as int) < h,
            ;
        }
        return Err(DeserializationError::Malformed);
    }
    proof {
        if h != 0 {
            lemma_fundamental_div_mod(usize::MAX as int, h as int);
            assert(w * h <= usize::MAX) by (nonlinear_arith)
                requires
                    h > 0,
                    w <= usize::MAX as int / h as int,
                    usize::MAX as int == h * (usize::MAX as int / h as int) + (usize::MAX as int
                        % h as int),
                    0 <= (usize::MAX as int % h as int),
                    (usize::MAX as int % h as int) < h,
            ;
        }
    }
    let count: usize = w * h;
    if count > (usize::MAX - 16) / 3 {
        proof {
            lemma_fundamental_div_mod((usize::MAX - 16) as int, 3);
            assert(16 + 3 * count > usize::MAX) by (nonlinear_arith)
                requires
                    count > (usize::MAX - 16) as int / 3,
                    (usize::MAX - 16) as int == 3 * ((usize::MAX - 16) as int / 3) + ((usize::MAX
                        - 16) as int % 3),
                    0 <= ((usize::MAX - 16) as int % 3),
                    ((usize::MAX - 16) as int % 3) < 3,
            ;
        }
        return Err(DeserializationError::Malformed);
    }
    proof {
        lemma_fundamental_div_mod((usize::MAX - 16) as int, 3);
        assert(16 + 3 * count <= usize::MAX) by (nonlinear_arith)
            requires
                count <= (usize::MAX - 16) as int / 3,
                (usize::MAX - 16) as int == 3 * ((usize::MAX - 16) as int / 3) + ((usize::MAX
                    - 16) as int % 3),
                0 <= ((usize::MAX - 16) as int % 3),
                ((usize::MAX - 16) as int % 3) < 3,
        ;
    }
    if len != 16 + 3 * count {
        return Err(DeserializationError::Malformed);
    }
    let mut cells: Vec<Block> = Vec::new();
    let mut i: usize = 0;
    while i < count
        invariant
            bytes@.len() == 16 + 3 * count,
            16 + 3 * count <= usize::MAX,
            count == w * h,
            w == le_val(bytes@.subrange(0, 8)),
            h == le_val(bytes@.subrange(8, 16)),
            w <= usize::MAX,
            h <= usize::MAX,
            i <= count,
            cells@.len() == i,
            forall|j: int|
                0 <= j < i ==> #[trigger] decode_cell(bytes@.subrange(16 + 3 * j, 16 + 3 * j + 3))
                    == Some(cells@[j]),
        decreases count - i,
    {
        let base: usize = 16 + 3 * i;
        let t: u8 = bytes[base];
        let a: u8 = bytes[base + 1];
        let b: u8 = bytes[base + 2];
        proof {
            assert(seq![t, a, b] =~= bytes@.subrange(16 + 3 * i, 16 + 3 * i + 3));
        }
        match decode_cell_bytes(t, a, b) {
            Some(c) => {
                cells.push(c);
            },
            None => {
                proof {
                    assert(decode_cell(bytes@.subrange(16 + 3 * i, 16 + 3 * i + 3)) is None);
                    assert(spec_deserialize(bytes@) is None);
                }
                return Err(DeserializationError::Malformed);
            },
        }
        i = i + 1;
    }
    proof {
        let t = spec_deserialize(bytes@);
        assert(t is Some);
        assert(t.unwrap().2 =~= cells@);
    }
    Ok(Grid::from_parts(w, h, cells))
}

} // verus!

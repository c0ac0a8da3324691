//! Dense fixed-size storage of blocks, addressed by a flattened row-major
//! index, together with the edit interface that the input layer drives.

use vstd::prelude::*;
use vstd::pervasive::VecAdditionalExecFns;
use crate::blocks::Block;

verus! {

/// Width, in cells, of the default world.
pub const CW: u32 = 60;

/// Height, in cells, of the default world.
pub const CH: u32 = 40;

/// The index or coordinate lies outside the grid extent.
#[derive(Clone, Copy, Debug, PartialEq, Eq, Structural)]
pub enum GridError {
    OutOfBounds,
}

/// A fixed `width * height` grid of blocks. Cell `(x, y)` lives at flattened
/// index `y * width + x`.
pub struct Grid {
    width: usize,
    height: usize,
    cells: Vec<Block>,
}

impl View for Grid {
    type V = Seq<Block>;

    closed spec fn view(&self) -> Seq<Block> {
        self.cells@
    }
}

impl Grid {
    pub closed spec fn spec_width(&self) -> int {
        self.width as int
    }

    pub closed spec fn spec_height(&self) -> int {
        self.height as int
    }

    /// The one structural invariant: the cell store holds exactly one block
    /// per coordinate of the extent.
    pub open spec fn wf(&self) -> bool {
        self@.len() == self.spec_width() * self.spec_height()
    }

    /// A grid filled uniformly with one block value.
    pub fn new(width: usize, height: usize, fill: Block) -> (g: Grid)
        requires
            width * height <= usize::MAX,
        ensures
            g.wf(),
            g.spec_width() == width,
            g.spec_height() == height,
            g@.len() == width * height,
            forall|i: int| 0 <= i < g@.len() ==> g@[i] == fill,
    {
        let n: usize = width * height;
        let mut cells: Vec<Block> = Vec::new();
        let mut i: usize = 0;
        while i < n
            invariant
                i <= n,
                cells@.len() == i,
                forall|j: int| 0 <= j < i ==> cells@[j] == fill,
            decreases n - i,
        {
            cells.push(fill);
            i = i + 1;
        }
        Grid { width, height, cells }
    }

    /// A grid assembled from an extent and a cell store that already has
    /// exactly one block per coordinate.
    pub fn from_parts(width: usize, height: usize, cells: Vec<Block>) -> (g: Grid)
        requires
            cells@.len() == width * height,
        ensures
            g.wf(),
            g.spec_width() == width,
            g.spec_height() == height,
            g@ == cells@,
    {
        Grid { width, height, cells }
    }

    pub fn width(&self) -> (w: usize)
        ensures
            w == self.spec_width(),
    {
        self.width
    }

    pub fn height(&self) -> (h: usize)
        ensures
            h == self.spec_height(),
    {
        self.height
    }

    pub fn len(&self) -> (n: usize)
        ensures
            n == self@.len(),
    {
        self.cells.len()
    }

    /// The block at a flattened index; `None` past the end of the extent,
    /// never a panic.
    pub fn get(&self, index: usize) -> (r: Option<&Block>)
        ensures
            (match r {
                Some(b) => index < self@.len() && *b == self@[index as int],
                None => index >= self@.len(),
            }),
    {
        if index < self.cells.len() {
            Some(&self.cells[index])
        } else {
            None
        }
    }

    /// Overwrite the block at an in-bounds index.
    pub fn set(&mut self, index: usize, cell: Block)
        requires
            index < old(self)@.len(),
        ensures
            final(self)@ == old(self)@.update(index as int, cell),
            final(self).spec_width() == old(self).spec_width(),
            final(self).spec_height() == old(self).spec_height(),
    {
        self.cells.set(index, cell);
    }

    /// The edit interface: overwrite the block at `index`, or report
    /// `OutOfBounds` (leaving the grid untouched) when the index lies past
    /// the extent. Placement never runs propagation.
    pub fn place(&mut self, index: usize, cell: Block) -> (r: Result<(), GridError>)
        ensures
            index < old(self)@.len() ==> r is Ok && final(self)@ == old(self)@.update(
                index as int,
                cell,
            ),
            index >= old(self)@.len() ==> r == Result::<(), GridError>::Err(
                GridError::OutOfBounds,
            ) && *final(self) == *old(self),
            final(self).spec_width() == old(self).spec_width(),
            final(self).spec_height() == old(self).spec_height(),
    {
        if index < self.cells.len() {
            self.cells.set(index, cell);
            Ok(())
        } else {
            Err(GridError::OutOfBounds)
        }
    }

    /// The row-major scan handed to the renderer: every `(index, block)`
    /// pair in order.
    pub fn iterate(&self) -> (r: Vec<(usize, Block)>)
        ensures
            r@.len() == self@.len(),
            forall|i: int| 0 <= i < r@.len() ==> r@[i] == (i as usize, self@[i]),
    {
        let mut out: Vec<(usize, Block)> = Vec::new();
        let mut i: usize = 0;
        while i < self.cells.len()
            invariant
                i <= self@.len(),
                out@.len() == i,
                forall|j: int| 0 <= j < i ==> out@[j] == (j as usize, self@[j]),
            decreases self@.len() - i,
        {
            out.push((i, self.cells[i]));
            i = i + 1;
        }
        out
    }
}

/// The default world: `CW x CH` cells filled uniformly with one block value.
pub fn create_world(block: &Block) -> (g: Grid)
    ensures
        g.wf(),
        g.spec_width() == CW,
        g.spec_height() == CH,
        forall|i: int| 0 <= i < g@.len() ==> g@[i] == *block,
{
    Grid::new(CW as usize, CH as usize, *block)
}

/// Flattened index to `(x, y)` coordinates of the default world.
pub fn from_idx(idx: usize) -> (r: (u32, u32))
    requires
        idx <= u32::MAX,
    ensures
        r.0 == idx as int % CW as int,
        r.1 == idx as int / CW as int,
{
    (idx as u32 % CW, idx as u32 / CW)
}

/// `(x, y)` coordinates of the default world to a flattened index.
pub fn _from_cords(x: u32, y: u32) -> (r: usize)
    requires
        y * CW + x <= u32::MAX,
    ensures
        r == y * CW + x,
{
    (y * CW + x) as usize
}

} // verus!

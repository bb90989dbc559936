//! Per-instance transform data for the GPU.
//!
//! Every live cell is drawn as one instance of the base mesh, translated to
//! the cell's coordinates on the grid plane (`z = 0`) with the identity
//! rotation and no scale.  Such a transform is a 4x4 homogeneous matrix all
//! of whose entries are integers, so the flattened matrix is produced here
//! as exact integer values; the rendering layer widens them to `f32` when
//! it fills the GPU instance buffer.
//!
//! The 16 values are laid out in column-major order: entry `4 * c + r` is
//! row `r` of column `c`, so the translation stands in the last column.

use vstd::prelude::*;

verus! {

/// One drawn copy of the base mesh: a live cell at grid coordinates
/// `(x, y)`, placed at `(x, y, 0)` with the identity rotation.
pub struct Instance {
    pub x: i32,
    pub y: i32,
}

/// A sequence of `i32` values read as mathematical integers.
pub open spec fn as_ints(s: Seq<i32>) -> Seq<int> {
    s.map_values(|v: i32| v as int)
}

/// The column-major 4x4 homogeneous matrix that translates by `(x, y, 0)`
/// and rotates by the identity.
pub open spec fn raw_matrix(x: int, y: int) -> Seq<int> {
    seq![1, 0, 0, 0, 0, 1, 0, 0, 0, 0, 1, 0, x, y, 0, 1]
}

/// The instance buffer contents for the given cells: each cell's transform
/// matrix, flattened, in the order the cells are listed.
pub open spec fn flat_raw(cells: Seq<(int, int)>) -> Seq<int>
    decreases cells.len(),
{
    if cells.len() == 0 {
        Seq::empty()
    } else {
        flat_raw(cells.drop_last()) + raw_matrix(cells.last().0, cells.last().1)
    }
}

impl Instance {
    /// Flattens the instance's transform into its 16 matrix entries,
    /// column-major.
    pub fn to_raw(&self) -> (r: Vec<i32>)
        ensures
            as_ints(r@) == raw_matrix(self.x as int, self.y as int),
    {
        let mut r: Vec<i32> = Vec::new();
        r.push(1);
        r.push(0);
        r.push(0);
        r.push(0);
        r.push(0);
        r.push(1);
        r.push(0);
        r.push(0);
        r.push(0);
        r.push(0);
        r.push(1);
        r.push(0);
        r.push(self.x);
        r.push(self.y);
        r.push(0);
        r.push(1);
        proof {
            assert(as_ints(r@) =~= raw_matrix(self.x as int, self.y as int));
        }
        r
    }
}

/// Reading a concatenation as integers is concatenating the readings.
pub proof fn lemma_as_ints_add(a: Seq<i32>, b: Seq<i32>)
    ensures
        as_ints(a + b) == as_ints(a) + as_ints(b),
{
    assert(as_ints(a + b) =~= as_ints(a) + as_ints(b));
}

/// Extending the cell list by one cell appends that cell's matrix to the
/// instance buffer.
pub proof fn lemma_flat_raw_take_step(cells: Seq<(int, int)>, k: int)
    requires
        0 <= k < cells.len(),
    ensures
        flat_raw(cells.take(k + 1)) == flat_raw(cells.take(k)) + raw_matrix(
            cells[k].0,
            cells[k].1,
        ),
{
    assert(cells.take(k + 1).drop_last() =~= cells.take(k));
    assert(cells.take(k + 1).last() == cells[k]);
}

/// An instance buffer holds 16 values for each cell it was built from.
pub proof fn lemma_flat_raw_len(cells: Seq<(int, int)>)
    ensures
        flat_raw(cells).len() == 16 * cells.len(),
    decreases cells.len(),
{
    if cells.len() > 0 {
        lemma_flat_raw_len(cells.drop_last());
    }
}

/// Block `k` of an instance buffer is exactly the transform matrix of the
/// `k`-th cell it was built from.
pub proof fn lemma_flat_raw_block(cells: Seq<(int, int)>, k: int)
    requires
        0 <= k < cells.len(),
    ensures
        flat_raw(cells).subrange(16 * k, 16 * k + 16) == raw_matrix(cells[k].0, cells[k].1),
    decreases cells.len(),
{
    lemma_flat_raw_len(cells);
    if k == cells.len() - 1 {
        lemma_flat_raw_len(cells.drop_last());
        assert(flat_raw(cells).subrange(16 * k, 16 * k + 16) =~= raw_matrix(
            cells[k].0,
            cells[k].1,
        ));
    } else {
        lemma_flat_raw_block(cells.drop_last(), k);
        lemma_flat_raw_len(cells.drop_last());
        assert(cells.drop_last()[k] == cells[k]);
        assert(flat_raw(cells).subrange(16 * k, 16 * k + 16) =~= flat_raw(
            cells.drop_last(),
        ).subrange(16 * k, 16 * k + 16));
    }
}

} // verus!

//! Tracking the size of the terminal grid between frames.
use vstd::prelude::*;

verus! {

/// The grid size seen at the last frame; a change of size restarts the field.
#[derive(Clone, Copy, Debug, PartialEq, Eq)]
pub struct SizeWatch {
    pub last_cols: usize,
    pub last_rows: usize,
}

/// The watch after seeing a `cols` by `rows` grid, and whether the size
/// changed.
pub open spec fn observe_spec(w: SizeWatch, cols: usize, rows: usize) -> (SizeWatch, bool) {
    (
        SizeWatch { last_cols: cols, last_rows: rows },
        cols != w.last_cols || rows != w.last_rows,
    )
}

impl SizeWatch {
    /// A watch that has seen no grid yet (size zero by zero).
    pub fn new() -> (w: SizeWatch)
        ensures
            w == (SizeWatch { last_cols: 0, last_rows: 0 }),
    {
        SizeWatch { last_cols: 0, last_rows: 0 }
    }

    /// Records the grid size of this frame; true when it differs from the last
    /// one, so that the field must be rebuilt.
    pub fn observe(&mut self, cols: usize, rows: usize) -> (changed: bool)
        ensures
            (*final(self), changed) == observe_spec(*old(self), cols, rows),
    {
        let changed = cols != self.last_cols || rows != self.last_rows;
        self.last_cols = cols;
        self.last_rows = rows;
        changed
    }
}

/// A field is rebuilt once per change of size: seeing the same size again
/// right after reports no change.
pub proof fn lemma_observe_settles(w: SizeWatch, cols: usize, rows: usize)
    ensures
        !observe_spec(observe_spec(w, cols, rows).0, cols, rows).1,
        observe_spec(observe_spec(w, cols, rows).0, cols, rows).0 == observe_spec(w, cols, rows).0,
{
}

/// Any change of size counts, smaller as well as larger, in either
/// dimension; only the very same size counts as no change. The watch always
/// moves to the size it was shown.
pub proof fn lemma_observe_detects_every_resize(w: SizeWatch, cols: usize, rows: usize)
    ensures
        cols < w.last_cols ==> observe_spec(w, cols, rows).1,
        cols > w.last_cols ==> observe_spec(w, cols, rows).1,
        rows < w.last_rows ==> observe_spec(w, cols, rows).1,
        rows > w.last_rows ==> observe_spec(w, cols, rows).1,
        (cols == w.last_cols && rows == w.last_rows) ==> !observe_spec(w, cols, rows).1,
        observe_spec(w, cols, rows).0.last_cols == cols,
        observe_spec(w, cols, rows).0.last_rows == rows,
{
}

} // verus!

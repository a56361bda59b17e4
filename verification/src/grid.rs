//! The screen grid: an ordered sequence of rows, each a fixed number of
//! cells wide, together with the shifting and filling operations that the
//! control sequences are defined by.
//!
//! Every operation is stated as a sequence comprehension over the old
//! contents, so a reader can see at a glance which cell of the new grid
//! comes from which cell of the old one.

use vstd::prelude::*;

use crate::cell::Cell;

verus! {

/// A row of `cols` blank cells.
pub open spec fn spec_blank_row(cols: nat) -> Seq<Cell> {
    Seq::new(cols, |i: int| Cell::spec_blank())
}

/// The mathematical contents of a sequence of vectors, vector views taken
/// element by element.
pub open spec fn vv<T>(s: Seq<Vec<T>>) -> Seq<Seq<T>> {
    Seq::new(s.len(), |i: int| s[i]@)
}

/// A grid is well formed for `rows` x `cols` when it has exactly `rows`
/// rows of exactly `cols` cells each.
pub open spec fn grid_wf(g: Seq<Seq<Cell>>, rows: nat, cols: nat) -> bool {
    &&& g.len() == rows
    &&& forall|i: int| 0 <= i < rows ==> (#[trigger] g[i]).len() == cols
}

/// Every row vector of the grid is `cols` cells wide.
pub open spec fn rows_wf(g: Seq<Vec<Cell>>, cols: nat) -> bool {
    forall|i: int| 0 <= i < g.len() ==> (#[trigger] g[i])@.len() == cols
}

/// A grid of row vectors whose mathematical contents are well formed has
/// well-formed row vectors.
pub proof fn rows_wf_from_grid_wf(s: Seq<Vec<Cell>>, rows: nat, cols: nat)
    requires
        grid_wf(vv(s), rows, cols),
    ensures
        s.len() == rows,
        rows_wf(s, cols),
{
    assert forall|i: int| 0 <= i < s.len() implies (#[trigger] s[i])@.len() == cols by {
        assert(vv(s)[i] == s[i]@);
    }
}

/// Cells `from` (inclusive) to `to` (exclusive) replaced by `fill`; the
/// rest of the row unchanged.
pub open spec fn spec_row_fill(r: Seq<Cell>, from: int, to: int, fill: Cell) -> Seq<Cell> {
    Seq::new(r.len(), |i: int| if from <= i < to { fill } else { r[i] })
}

/// `n` cells deleted at `at`: the cells right of them shift left, and blank
/// cells fill the right margin.
pub open spec fn spec_row_delete(r: Seq<Cell>, at: int, n: int) -> Seq<Cell> {
    Seq::new(
        r.len(),
        |i: int|
            if i < at {
                r[i]
            } else if i + n < r.len() {
                r[i + n]
            } else {
                Cell::spec_blank()
            },
    )
}

/// `n` blank cells inserted at `at`: the cells from `at` on shift right and
/// drop off at the right margin.
pub open spec fn spec_row_insert(r: Seq<Cell>, at: int, n: int) -> Seq<Cell> {
    Seq::new(
        r.len(),
        |i: int|
            if i < at {
                r[i]
            } else if i < at + n {
                Cell::spec_blank()
            } else {
                r[i - n]
            },
    )
}

/// `n` lines deleted at row `at`: the lines below shift up and blank lines
/// fill the bottom.  With `at == 0` this is a scroll-up by `n`.
pub open spec fn spec_grid_delete_lines(
    g: Seq<Seq<Cell>>,
    cols: nat,
    at: int,
    n: int,
) -> Seq<Seq<Cell>> {
    Seq::new(
        g.len(),
        |i: int|
            if i < at {
                g[i]
            } else if i + n < g.len() {
                g[i + n]
            } else {
                spec_blank_row(cols)
            },
    )
}

/// `n` blank lines inserted at row `at`: the lines from `at` on shift down
/// and drop off at the bottom.  With `at == 0` this is a scroll-down by `n`.
pub open spec fn spec_grid_insert_lines(
    g: Seq<Seq<Cell>>,
    cols: nat,
    at: int,
    n: int,
) -> Seq<Seq<Cell>> {
    Seq::new(
        g.len(),
        |i: int|
            if i < at {
                g[i]
            } else if i < at + n {
                spec_blank_row(cols)
            } else {
                g[i - n]
            },
    )
}

/// The whole grid blanked.
pub open spec fn spec_grid_clear(g: Seq<Seq<Cell>>, cols: nat) -> Seq<Seq<Cell>> {
    Seq::new(g.len(), |i: int| spec_blank_row(cols))
}

/// A row of `cols` blank cells.
pub fn blank_row(cols: usize) -> (r: Vec<Cell>)
    ensures
        r@ == spec_blank_row(cols as nat),
{
    let mut r: Vec<Cell> = Vec::new();
    let mut i: usize = 0;
    while i < cols
        invariant
            i <= cols,
            r@.len() == i,
            forall|k: int| 0 <= k < i ==> r@[k] == Cell::spec_blank(),
        decreases cols - i,
    {
        r.push(Cell::blank());
        i += 1;
    }
    proof {
        assert(r@ =~= spec_blank_row(cols as nat));
    }
    r
}

/// A copy of a row, cell for cell.
pub fn copy_row(r: &Vec<Cell>) -> (c: Vec<Cell>)
    ensures
        c@ == r@,
{
    let mut c: Vec<Cell> = Vec::new();
    let mut i: usize = 0;
    while i < r.len()
        invariant
            i <= r@.len(),
            c@.len() == i,
            forall|k: int| 0 <= k < i ==> c@[k] == r@[k],
        decreases r@.len() - i,
    {
        c.push(r[i]);
        i += 1;
    }
    proof {
        assert(c@ =~= r@);
    }
    c
}

/// Replace cells `from` to `to` (exclusive) of the row by `fill`.
pub fn row_fill(r: &mut Vec<Cell>, from: usize, to: usize, fill: Cell)
    requires
        to <= old(r)@.len(),
    ensures
        final(r)@ == spec_row_fill(old(r)@, from as int, to as int, fill),
{
    let mut i: usize = from;
    while i < to
        invariant
            from <= i,
            i <= to || i == from,
            to <= r@.len(),
            r@.len() == old(r)@.len(),
            forall|k: int|
                0 <= k < r@.len() ==> r@[k] == (if from <= k < i {
                    fill
                } else {
                    old(r)@[k]
                }),
        decreases to - i,
    {
        r.set(i, fill);
        i += 1;
    }
    proof {
        assert(r@ =~= spec_row_fill(old(r)@, from as int, to as int, fill));
    }
}

/// Delete `n` cells at `at`, shifting the rest left and filling the right
/// margin with blanks.
pub fn row_delete(r: &mut Vec<Cell>, at: usize, n: usize)
    requires
        old(r)@.len() + n <= usize::MAX,
    ensures
        final(r)@ == spec_row_delete(old(r)@, at as int, n as int),
{
    let len = r.len();
    let mut i: usize = at;
    while i < len
        invariant
            at <= i,
            len == r@.len(),
            len == old(r)@.len(),
            len + n <= usize::MAX,
            forall|k: int|
                0 <= k < len ==> r@[k] == (if at <= k < i {
                    spec_row_delete(old(r)@, at as int, n as int)[k]
                } else {
                    old(r)@[k]
                }),
        decreases len - i,
    {
        let v: Cell = if i + n < len {
            r[i + n]
        } else {
            Cell::blank()
        };
        r.set(i, v);
        i += 1;
    }
    proof {
        assert(r@ =~= spec_row_delete(old(r)@, at as int, n as int));
    }
}

/// Insert `n` blank cells at `at`, shifting the rest right; cells pushed
/// past the right margin are dropped.
pub fn row_insert(r: &mut Vec<Cell>, at: usize, n: usize)
    requires
        at <= old(r)@.len(),
    ensures
        final(r)@ == spec_row_insert(old(r)@, at as int, n as int),
{
    let len = r.len();
    let mut i: usize = len;
    while i > at
        invariant
            at <= i <= len,
            len == r@.len(),
            len == old(r)@.len(),
            at <= len,
            forall|k: int|
                0 <= k < len ==> r@[k] == (if i <= k < len {
                    spec_row_insert(old(r)@, at as int, n as int)[k]
                } else {
                    old(r)@[k]
                }),
        decreases i,
    {
        i -= 1;
        let v: Cell = if n <= i && i - n >= at {
            r[i - n]
        } else {
            Cell::blank()
        };
        r.set(i, v);
        proof {
            let s = spec_row_insert(old(r)@, at as int, n as int);
            assert(r@[i as int] == s[i as int]);
        }
    }
    proof {
        assert(r@ =~= spec_row_insert(old(r)@, at as int, n as int));
    }
}

/// Delete `n` lines at row `at`, shifting the lower lines up and filling
/// the bottom with blank lines.
pub fn grid_delete_lines(g: &mut Vec<Vec<Cell>>, cols: usize, at: usize, n: usize)
    requires
        old(g)@.len() + n <= usize::MAX,
        rows_wf(old(g)@, cols as nat),
    ensures
        vv(final(g)@) == spec_grid_delete_lines(vv(old(g)@), cols as nat, at as int, n as int),
        final(g)@.len() == old(g)@.len(),
        rows_wf(final(g)@, cols as nat),
{
    let rows = g.len();
    let mut out: Vec<Vec<Cell>> = Vec::new();
    let mut i: usize = 0;
    while i < rows
        invariant
            i <= rows,
            rows == g@.len(),
            g@ == old(g)@,
            rows + n <= usize::MAX,
            rows_wf(g@, cols as nat),
            out@.len() == i,
            rows_wf(out@, cols as nat),
            forall|k: int|
                0 <= k < i ==> (#[trigger] out@[k])@ == spec_grid_delete_lines(
                    vv(old(g)@),
                    cols as nat,
                    at as int,
                    n as int,
                )[k],
        decreases rows - i,
    {
        if i < at {
            let row = copy_row(&g[i]);
            out.push(row);
        } else if i + n < rows {
            let row = copy_row(&g[i + n]);
            out.push(row);
        } else {
            out.push(blank_row(cols));
        }
        i += 1;
    }
    *g = out;
    proof {
        assert(vv(g@) =~= spec_grid_delete_lines(vv(old(g)@), cols as nat, at as int, n as int));
    }
}

/// Insert `n` blank lines at row `at`, shifting the lower lines down; lines
/// pushed past the bottom are dropped.
pub fn grid_insert_lines(g: &mut Vec<Vec<Cell>>, cols: usize, at: usize, n: usize)
    requires
        rows_wf(old(g)@, cols as nat),
    ensures
        vv(final(g)@) == spec_grid_insert_lines(vv(old(g)@), cols as nat, at as int, n as int),
        final(g)@.len() == old(g)@.len(),
        rows_wf(final(g)@, cols as nat),
{
    let rows = g.len();
    let mut out: Vec<Vec<Cell>> = Vec::new();
    let mut i: usize = 0;
    while i < rows
        invariant
            i <= rows,
            rows == g@.len(),
            g@ == old(g)@,
            rows_wf(g@, cols as nat),
            out@.len() == i,
            rows_wf(out@, cols as nat),
            forall|k: int|
                0 <= k < i ==> (#[trigger] out@[k])@ == spec_grid_insert_lines(
                    vv(old(g)@),
                    cols as nat,
                    at as int,
                    n as int,
                )[k],
        decreases rows - i,
    {
        if i < at {
            let row = copy_row(&g[i]);
            out.push(row);
        } else if i < at.saturating_add(n) {
            out.push(blank_row(cols));
        } else {
            let row = copy_row(&g[i - n]);
            out.push(row);
        }
        i += 1;
    }
    *g = out;
    proof {
        assert(vv(g@) =~= spec_grid_insert_lines(vv(old(g)@), cols as nat, at as int, n as int));
    }
}

/// Blank the whole grid.
pub fn grid_clear(g: &mut Vec<Vec<Cell>>, cols: usize)
    ensures
        vv(final(g)@) == spec_grid_clear(vv(old(g)@), cols as nat),
        final(g)@.len() == old(g)@.len(),
        rows_wf(final(g)@, cols as nat),
{
    let rows = g.len();
    let mut out: Vec<Vec<Cell>> = Vec::new();
    let mut i: usize = 0;
    while i < rows
        invariant
            i <= rows,
            rows == g@.len(),
            g@ == old(g)@,
            out@.len() == i,
            rows_wf(out@, cols as nat),
            forall|k: int| 0 <= k < i ==> (#[trigger] out@[k])@ == spec_blank_row(cols as nat),
        decreases rows - i,
    {
        out.push(blank_row(cols));
        i += 1;
    }
    *g = out;
    proof {
        assert(vv(g@) =~= spec_grid_clear(vv(old(g)@), cols as nat));
    }
}

} // verus!

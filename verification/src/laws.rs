//! The emulator's general laws, stated over the model and proved once for
//! all inputs: determinism of the byte-stream semantics, the dimension
//! invariant of rendering, one-indexing of the cursor position report, and
//! the delayed-wrap discipline at the right margin.

use vstd::prelude::*;

use crate::cell::{Cell, Pen};
use crate::render::{
    spec_attr_cells_from, spec_attr_line, spec_attr_render, spec_attr_render_upto,
    spec_cell_visible, spec_end_pen, spec_pen_of, spec_plain_line, spec_plain_render,
    spec_plain_render_upto, spec_row_chars, spec_trimmed_len, spec_visible_len,
};
use crate::screen::{
    spec_cpr_reply, spec_csi_apply, spec_execute, spec_feed, spec_p_or, spec_print, spec_resize,
    wf, ScreenModel,
};

verus! {

/// Determinism: consuming a byte sequence is a function of the starting
/// state alone, so two emulators in the same state — in particular, two
/// freshly constructed ones of the same dimensions — agree after the same
/// bytes in grid, cursor, pending replies, and hence in every rendering.
pub proof fn lemma_feed_deterministic(a: ScreenModel, b: ScreenModel, bytes: Seq<u8>)
    requires
        a == b,
    ensures
        spec_feed(a, bytes) == spec_feed(b, bytes),
{
}

/// Trimming never lengthens a line.
pub proof fn lemma_trimmed_len_le(s: Seq<char>)
    ensures
        0 <= spec_trimmed_len(s) <= s.len(),
    decreases s.len(),
{
    if s.len() > 0 && s.last() == ' ' {
        lemma_trimmed_len_le(s.drop_last());
    }
}

/// The dimension invariant: after a resize the model reports exactly the
/// new dimensions, and every rendered line shows at most that many
/// columns.
pub proof fn lemma_resize_dimensions(m: ScreenModel, rows: int, cols: int)
    requires
        wf(m),
        1 <= rows <= 0xFFFF,
        1 <= cols <= 0xFFFF,
    ensures
        spec_resize(m, rows, cols).rows == rows,
        spec_resize(m, rows, cols).cols == cols,
        forall|i: int|
            0 <= i < spec_resize(m, rows, cols).grid.len() ==> spec_plain_line(
                #[trigger] spec_resize(m, rows, cols).grid[i],
            ).len() <= cols,
{
    let m2 = spec_resize(m, rows, cols);
    assert forall|i: int| 0 <= i < m2.grid.len() implies spec_plain_line(
        #[trigger] m2.grid[i],
    ).len() <= cols by {
        assert(m2.grid[i].len() == cols);
        assert(spec_row_chars(m2.grid[i]).len() == cols);
        lemma_trimmed_len_le(spec_row_chars(m2.grid[i]));
    }
}

/// One-indexing on the wire: the reply to a cursor position query encodes
/// the current cursor with one added to each coordinate, never the
/// zero-indexed form.
pub proof fn lemma_dsr6_reply_one_indexed(m: ScreenModel, params: Seq<u16>, inters: Seq<u8>)
    requires
        wf(m),
        spec_p_or(params, 0, 0) == 6,
    ensures
        spec_csi_apply(m, 0x6E, params, inters).replies == m.replies.push(
            spec_cpr_reply(m.cur_row + 1, m.cur_col + 1),
        ),
        m.cur_row + 1 >= 1,
        m.cur_col + 1 >= 1,
{
    reveal(spec_csi_apply);
}

/// Delayed wrap: writing a printable at the last column leaves the cursor
/// on that column with the wrap pending; the next printable then lands at
/// column zero of the following line (scrolling at the last row) and
/// leaves the cursor at column one.
pub proof fn lemma_delayed_wrap(m: ScreenModel, c: char)
    requires
        wf(m),
    ensures
        (!m.pending_wrap && m.cur_col == m.cols - 1) ==> {
            let m2 = spec_print(m, c);
            &&& m2.cur_col == m.cols - 1
            &&& m2.cur_row == m.cur_row
            &&& m2.pending_wrap
        },
        (m.pending_wrap && m.cols >= 2) ==> {
            let m2 = spec_print(m, c);
            &&& m2.cur_col == 1
            &&& !m2.pending_wrap
            &&& m2.cur_row == (if m.cur_row + 1 < m.rows {
                m.cur_row + 1
            } else {
                m.rows - 1
            })
        },
{
}

/// Any cursor-positioning control sequence forgets a pending wrap before
/// it takes effect.
pub proof fn lemma_wrap_cancelled_by_csi(m: ScreenModel, action: u8, params: Seq<u16>, inters: Seq<u8>)
    requires
        wf(m),
        action == 0x41 || action == 0x42 || action == 0x43 || action == 0x44 || action == 0x47
            || action == 0x48 || action == 0x64 || action == 0x66,
    ensures
        !spec_csi_apply(m, action, params, inters).pending_wrap,
{
    reveal(spec_csi_apply);
}

/// Carriage return, line feed and backspace forget a pending wrap.
pub proof fn lemma_wrap_cancelled_by_ctrl(m: ScreenModel, b: u8)
    requires
        wf(m),
        b == 0x0D || b == 0x0A || b == 0x08,
    ensures
        !spec_execute(m, b).pending_wrap,
{
}

/// Backspace at the right margin: with the wrap pending, backspace both
/// forgets it and moves one column left, so the next printable overwrites
/// the second-to-last cell of the same row in place.
pub proof fn lemma_backspace_at_margin(m: ScreenModel, c: char)
    requires
        wf(m),
        m.pending_wrap,
        m.cur_col == m.cols - 1,
        m.cols >= 2,
    ensures
        ({
            let m1 = spec_execute(m, 8);
            let m2 = spec_print(m1, c);
            &&& m1.cur_col == m.cols - 2
            &&& !m1.pending_wrap
            &&& m1.cur_row == m.cur_row
            &&& m2.cur_row == m.cur_row
            &&& m2.cur_col == m.cols - 1
            &&& m2.grid[m.cur_row][m.cols - 2] == m.pen.spec_paint(c)
            &&& forall|j: int|
                0 <= j < m.cols && j != m.cols - 2 ==> m2.grid[m.cur_row][j]
                    == m.grid[m.cur_row][j]
        }),
{
    let m1 = spec_execute(m, 8);
    let m2 = spec_print(m1, c);
    assert(m2.grid[m.cur_row] == m.grid[m.cur_row].update(m.cols - 2, m.pen.spec_paint(c)));
}


/// Whether every cell of a row carries only default colors and flags.
pub open spec fn spec_row_unstyled(row: Seq<Cell>) -> bool {
    forall|j: int| 0 <= j < row.len() ==> (#[trigger] row[j]).spec_is_plain()
}

/// On an unstyled row the visible length is the trimmed length of its
/// characters: without colors or flags, only a non-space character shows.
proof fn lemma_unstyled_visible_is_trimmed(row: Seq<Cell>)
    requires
        spec_row_unstyled(row),
    ensures
        spec_visible_len(row) == spec_trimmed_len(spec_row_chars(row)),
    decreases row.len(),
{
    if row.len() > 0 {
        assert(spec_row_chars(row).last() == row.last().ch);
        assert(spec_cell_visible(row.last()) == (row.last().ch != ' '));
        if !spec_cell_visible(row.last()) {
            assert(spec_row_unstyled(row.drop_last())) by {
                assert(forall|j: int|
                    0 <= j < row.len() - 1 ==> #[trigger] row.drop_last()[j] == row[j]);
            }
            assert(spec_row_chars(row).drop_last() =~= spec_row_chars(row.drop_last()));
            lemma_unstyled_visible_is_trimmed(row.drop_last());
        }
    }
}

/// On unstyled cells the attributed walk emits the bare characters: the
/// pen never differs from the default, so no sequence is ever emitted.
proof fn lemma_unstyled_cells_render_plain(cells: Seq<Cell>, i: int)
    requires
        spec_row_unstyled(cells),
        0 <= i <= cells.len(),
    ensures
        spec_attr_cells_from(cells, Pen::spec_default(), i) == spec_row_chars(cells).skip(i),
    decreases cells.len() - i,
{
    if i == cells.len() {
        assert(spec_row_chars(cells).skip(i) =~= Seq::<char>::empty());
    } else {
        assert(cells[i].spec_is_plain());
        assert(spec_pen_of(cells[i]) == Pen::spec_default());
        lemma_unstyled_cells_render_plain(cells, i + 1);
        assert(spec_row_chars(cells).skip(i) =~= seq![cells[i].ch] + spec_row_chars(cells).skip(
            i + 1,
        ));
        assert(spec_attr_cells_from(cells, Pen::spec_default(), i) =~= Seq::<char>::empty()
            + seq![cells[i].ch] + spec_attr_cells_from(cells, Pen::spec_default(), i + 1));
    }
}

/// One direction of the attributed round trip, proved once for all
/// inputs: on a grid without colors or flags the attributed rendering is
/// exactly the plain rendering, so parsing it back trivially reproduces
/// the plain form.
pub proof fn lemma_attr_render_of_unstyled_grid(g: Seq<Seq<Cell>>)
    requires
        forall|i: int| 0 <= i < g.len() ==> spec_row_unstyled(#[trigger] g[i]),
    ensures
        spec_attr_render(g) == spec_plain_render(g),
{
    lemma_attr_render_upto_unstyled(g, g.len() as int);
}

/// The row-by-row induction behind [`lemma_attr_render_of_unstyled_grid`].
proof fn lemma_attr_render_upto_unstyled(g: Seq<Seq<Cell>>, k: int)
    requires
        forall|i: int| 0 <= i < g.len() ==> spec_row_unstyled(#[trigger] g[i]),
        k <= g.len(),
    ensures
        spec_attr_render_upto(g, k) == spec_plain_render_upto(g, k),
    decreases k,
{
    if k > 0 {
        lemma_attr_render_upto_unstyled(g, k - 1);
        let row = g[k - 1];
        lemma_unstyled_visible_is_trimmed(row);
        let vis = row.take(spec_visible_len(row));
        assert(spec_row_unstyled(vis)) by {
            lemma_trimmed_len_le(spec_row_chars(row));
            assert(forall|j: int| 0 <= j < vis.len() ==> #[trigger] vis[j] == row[j]);
        }
        lemma_unstyled_cells_render_plain(vis, 0);
        assert(spec_row_chars(vis).skip(0) =~= spec_row_chars(vis));
        if vis.len() > 0 {
            assert(vis.last().spec_is_plain());
            assert(spec_end_pen(vis, Pen::spec_default()) == Pen::spec_default());
        }
        assert(spec_attr_line(row) =~= spec_row_chars(vis) + Seq::<char>::empty());
        lemma_trimmed_len_le(spec_row_chars(row));
        assert(spec_row_chars(vis) =~= spec_plain_line(row));
        assert(spec_attr_line(row) == spec_plain_line(row));
    }
}

} // verus!

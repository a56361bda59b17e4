//! Rendering the grid as text: the plain form, with each line right-trimmed
//! of spaces, and the attributed form, with minimal Select Graphic
//! Rendition prefixes re-emitted wherever a cell's colors or flags differ
//! from the running state.

use vstd::prelude::*;

use crate::cell::{Attrs, Cell, Color, Pen};
use crate::text::{chars_to_string, push_dec, spec_dec, str_chars};

verus! {

/// The characters of a row, cell for cell.
pub open spec fn spec_row_chars(row: Seq<Cell>) -> Seq<char> {
    Seq::new(row.len(), |i: int| row[i].ch)
}

/// The length of a character sequence once its trailing spaces are
/// dropped.
pub open spec fn spec_trimmed_len(s: Seq<char>) -> int
    decreases s.len(),
{
    if s.len() == 0 {
        0
    } else if s.last() == ' ' {
        spec_trimmed_len(s.drop_last())
    } else {
        s.len() as int
    }
}

/// A row as plain text: its characters, right-trimmed of spaces.
pub open spec fn spec_plain_line(row: Seq<Cell>) -> Seq<char> {
    spec_row_chars(row).take(spec_trimmed_len(spec_row_chars(row)))
}

/// The first `k` rows as plain text, each line ended by a newline.
pub open spec fn spec_plain_render_upto(grid: Seq<Seq<Cell>>, k: int) -> Seq<char>
    decreases k,
{
    if k <= 0 {
        Seq::empty()
    } else {
        spec_plain_render_upto(grid, k - 1) + spec_plain_line(grid[k - 1]) + seq!['\n']
    }
}

/// The whole grid as plain text.
pub open spec fn spec_plain_render(grid: Seq<Seq<Cell>>) -> Seq<char> {
    spec_plain_render_upto(grid, grid.len() as int)
}

/// The attribute state a cell paints with.
pub open spec fn spec_pen_of(c: Cell) -> Pen {
    Pen { fg: c.fg, bg: c.bg, attrs: c.attrs }
}

/// Whether a cell shows anything: any character other than a space, or a
/// space carrying colors or flags.
pub open spec fn spec_cell_visible(c: Cell) -> bool {
    !(c.ch == ' ' && c.spec_is_plain())
}

/// The length of a row once its trailing invisible cells are dropped.
pub open spec fn spec_visible_len(row: Seq<Cell>) -> int
    decreases row.len(),
{
    if row.len() == 0 {
        0
    } else if !spec_cell_visible(row.last()) {
        spec_visible_len(row.drop_last())
    } else {
        row.len() as int
    }
}

/// The code for one of the 16 basic colors: the standard range for the
/// first eight, the bright range above, on the foreground or background
/// side.
pub open spec fn spec_ansi_color_code(n: int, is_foreground: bool) -> int {
    if n < 8 {
        (if is_foreground {
            30int
        } else {
            40int
        }) + n
    } else {
        (if is_foreground {
            90int
        } else {
            100int
        }) + n - 8
    }
}

/// The Select Graphic Rendition fragment for one color, with its leading
/// separator; the default color contributes nothing (the reset that opens
/// every emitted sequence already restored it).
pub open spec fn spec_color_chars(c: Color, is_foreground: bool) -> Seq<char> {
    match c {
        Color::Default => Seq::empty(),
        Color::Ansi(n) => seq![';'] + spec_dec(
            spec_ansi_color_code(
                if n < 16 {
                    n as int
                } else {
                    15
                },
                is_foreground,
            ),
        ),
        Color::Indexed(i) => (if is_foreground {
            seq![';', '3', '8', ';', '5', ';']
        } else {
            seq![';', '4', '8', ';', '5', ';']
        }) + spec_dec(i as int),
        Color::Rgb(r, g, b) => (if is_foreground {
            seq![';', '3', '8', ';', '2', ';']
        } else {
            seq![';', '4', '8', ';', '2', ';']
        }) + spec_dec(r as int) + seq![';'] + spec_dec(g as int) + seq![';'] + spec_dec(b as int),
    }
}

/// The flag codes of a pen, each with its leading separator.
pub open spec fn spec_attr_chars(a: Attrs) -> Seq<char> {
    (if a.bold {
        seq![';', '1']
    } else {
        Seq::empty()
    }) + (if a.dim {
        seq![';', '2']
    } else {
        Seq::empty()
    }) + (if a.italic {
        seq![';', '3']
    } else {
        Seq::empty()
    }) + (if a.underline {
        seq![';', '4']
    } else {
        Seq::empty()
    }) + (if a.inverse {
        seq![';', '7']
    } else {
        Seq::empty()
    }) + (if a.hidden {
        seq![';', '8']
    } else {
        Seq::empty()
    }) + (if a.strikeout {
        seq![';', '9']
    } else {
        Seq::empty()
    })
}

/// The escape sequence that moves any terminal to exactly the given pen: a
/// reset, then the pen's flags and colors.
pub open spec fn spec_sgr_chars(p: Pen) -> Seq<char> {
    seq!['\u{1b}', '[', '0'] + spec_attr_chars(p.attrs) + spec_color_chars(p.fg, true)
        + spec_color_chars(p.bg, false) + seq!['m']
}

/// The plain reset sequence.
pub open spec fn spec_sgr_reset() -> Seq<char> {
    seq!['\u{1b}', '[', '0', 'm']
}

/// Cells rendered left to right from position `i`, re-emitting the pen
/// sequence exactly where a cell's state differs from the running state.
pub open spec fn spec_attr_cells_from(cells: Seq<Cell>, cur: Pen, i: int) -> Seq<char>
    decreases cells.len() - i,
{
    if i < 0 || i >= cells.len() {
        Seq::empty()
    } else {
        let cp = spec_pen_of(cells[i]);
        (if cp != cur {
            spec_sgr_chars(cp)
        } else {
            Seq::empty()
        }) + seq![cells[i].ch] + spec_attr_cells_from(cells, cp, i + 1)
    }
}

/// The pen in force after a run of cells: the last cell's, or the given
/// one where there is none.
pub open spec fn spec_end_pen(cells: Seq<Cell>, start: Pen) -> Pen {
    if cells.len() == 0 {
        start
    } else {
        spec_pen_of(cells.last())
    }
}

/// A row in attributed form: its visible prefix rendered with minimal pen
/// sequences, and a closing reset exactly when a non-default state is
/// still in force.
pub open spec fn spec_attr_line(row: Seq<Cell>) -> Seq<char> {
    let vis = row.take(spec_visible_len(row));
    spec_attr_cells_from(vis, Pen::spec_default(), 0) + (if spec_end_pen(vis, Pen::spec_default())
        != Pen::spec_default() {
        spec_sgr_reset()
    } else {
        Seq::empty()
    })
}

/// The first `k` rows in attributed form, each line ended by a newline.
pub open spec fn spec_attr_render_upto(grid: Seq<Seq<Cell>>, k: int) -> Seq<char>
    decreases k,
{
    if k <= 0 {
        Seq::empty()
    } else {
        spec_attr_render_upto(grid, k - 1) + spec_attr_line(grid[k - 1]) + seq!['\n']
    }
}

/// The whole grid in attributed form.
pub open spec fn spec_attr_render(grid: Seq<Seq<Cell>>) -> Seq<char> {
    spec_attr_render_upto(grid, grid.len() as int)
}

/// The basic-color code for color `n` of the 16, on the foreground or
/// background side.
pub fn named_color_to_ansi(n: u8, is_foreground: bool) -> (r: u16)
    requires
        n < 16,
    ensures
        r as int == spec_ansi_color_code(n as int, is_foreground),
{
    if n < 8 {
        (if is_foreground {
            30u16
        } else {
            40u16
        }) + n as u16
    } else {
        (if is_foreground {
            90u16
        } else {
            100u16
        }) + (n - 8) as u16
    }
}

/// Append the Select Graphic Rendition fragment for one color.
fn push_color_chars(out: &mut Vec<char>, c: &Color, is_foreground: bool)
    ensures
        final(out)@ == old(out)@ + spec_color_chars(*c, is_foreground),
{
    match c {
        Color::Default => {
            proof {
                assert(out@ =~= old(out)@ + spec_color_chars(*c, is_foreground));
            }
        },
        Color::Ansi(n) => {
            out.push(';');
            let code = named_color_to_ansi(if *n < 16 {
                *n
            } else {
                15
            }, is_foreground);
            push_dec(out, code);
            proof {
                assert(out@ =~= old(out)@ + spec_color_chars(*c, is_foreground));
            }
        },
        Color::Indexed(i) => {
            out.push(';');
            if is_foreground {
                out.push('3');
            } else {
                out.push('4');
            }
            out.push('8');
            out.push(';');
            out.push('5');
            out.push(';');
            push_dec(out, *i as u16);
            proof {
                assert(out@ =~= old(out)@ + spec_color_chars(*c, is_foreground));
            }
        },
        Color::Rgb(r, g, b) => {
            out.push(';');
            if is_foreground {
                out.push('3');
            } else {
                out.push('4');
            }
            out.push('8');
            out.push(';');
            out.push('2');
            out.push(';');
            push_dec(out, *r as u16);
            out.push(';');
            push_dec(out, *g as u16);
            out.push(';');
            push_dec(out, *b as u16);
            proof {
                assert(out@ =~= old(out)@ + spec_color_chars(*c, is_foreground));
            }
        },
    }
}

/// Append one flag code when the flag is on.
fn push_flag(out: &mut Vec<char>, on: bool, d: char)
    ensures
        final(out)@ == old(out)@ + (if on {
            seq![';', d]
        } else {
            Seq::<char>::empty()
        }),
{
    if on {
        out.push(';');
        out.push(d);
    }
    proof {
        assert(out@ =~= old(out)@ + (if on {
            seq![';', d]
        } else {
            Seq::<char>::empty()
        }));
    }
}

/// Sequence concatenation is associative.
proof fn lemma_add_assoc<T>(a: Seq<T>, b: Seq<T>, c: Seq<T>)
    ensures
        (a + b) + c == a + (b + c),
{
    assert((a + b) + c =~= a + (b + c));
}

/// Append the flag codes of a pen.
fn push_attr_chars(out: &mut Vec<char>, a: &Attrs)
    ensures
        final(out)@ == old(out)@ + spec_attr_chars(*a),
{
    push_flag(out, a.bold, '1');
    push_flag(out, a.dim, '2');
    push_flag(out, a.italic, '3');
    push_flag(out, a.underline, '4');
    push_flag(out, a.inverse, '7');
    push_flag(out, a.hidden, '8');
    push_flag(out, a.strikeout, '9');
    proof {
        let o = old(out)@;
        let f1: Seq<char> = if a.bold {
            seq![';', '1']
        } else {
            Seq::empty()
        };
        let f2: Seq<char> = if a.dim {
            seq![';', '2']
        } else {
            Seq::empty()
        };
        let f3: Seq<char> = if a.italic {
            seq![';', '3']
        } else {
            Seq::empty()
        };
        let f4: Seq<char> = if a.underline {
            seq![';', '4']
        } else {
            Seq::empty()
        };
        let f5: Seq<char> = if a.inverse {
            seq![';', '7']
        } else {
            Seq::empty()
        };
        let f6: Seq<char> = if a.hidden {
            seq![';', '8']
        } else {
            Seq::empty()
        };
        let f7: Seq<char> = if a.strikeout {
            seq![';', '9']
        } else {
            Seq::empty()
        };
        lemma_add_assoc(o, f1, f2);
        lemma_add_assoc(o, f1 + f2, f3);
        lemma_add_assoc(o, (f1 + f2) + f3, f4);
        lemma_add_assoc(o, ((f1 + f2) + f3) + f4, f5);
        lemma_add_assoc(o, (((f1 + f2) + f3) + f4) + f5, f6);
        lemma_add_assoc(o, ((((f1 + f2) + f3) + f4) + f5) + f6, f7);
        assert(out@ == o + spec_attr_chars(*a));
    }
}

/// Append the escape sequence that moves any terminal to the given pen.
pub fn push_sgr_chars(out: &mut Vec<char>, p: &Pen)
    ensures
        final(out)@ == old(out)@ + spec_sgr_chars(*p),
{
    out.push('\u{1b}');
    out.push('[');
    out.push('0');
    let ghost h = out@;
    proof {
        assert(h =~= old(out)@ + seq!['\u{1b}', '[', '0']);
    }
    push_attr_chars(out, &p.attrs);
    push_color_chars(out, &p.fg, true);
    push_color_chars(out, &p.bg, false);
    out.push('m');
    proof {
        assert(out@ =~= old(out)@ + spec_sgr_chars(*p));
    }
}

/// The escape sequence for one color, as its code string, or nothing for
/// the default color.
pub fn color_to_ansi(color: &Color, is_foreground: bool) -> (r: Option<String>)
    ensures
        match r {
            Some(s) => seq![';'] + s@ == spec_color_chars(*color, is_foreground),
            None => *color is Default,
        },
{
    match color {
        Color::Default => None,
        _ => {
            let mut v: Vec<char> = Vec::new();
            push_color_chars(&mut v, color, is_foreground);
            let mut tail: Vec<char> = Vec::new();
            let mut i: usize = 1;
            while i < v.len()
                invariant
                    1 <= i <= v@.len(),
                    v@.len() >= 1,
                    tail@ == v@.subrange(1, i as int),
                decreases v@.len() - i,
            {
                tail.push(v[i]);
                i += 1;
                proof {
                    assert(tail@ =~= v@.subrange(1, i as int));
                }
            }
            let s = chars_to_string(&tail);
            proof {
                assert(v@[0] == ';');
                assert(seq![';'] + s@ =~= v@);
            }
            Some(s)
        },
    }
}

/// The full escape sequence that re-creates the given colors and flags on
/// any terminal.
pub fn build_sgr_sequence(fg: &Color, bg: &Color, attrs: &Attrs) -> (r: String)
    ensures
        r@ == spec_sgr_chars(Pen { fg: *fg, bg: *bg, attrs: *attrs }),
{
    let mut v: Vec<char> = Vec::new();
    let p = Pen { fg: *fg, bg: *bg, attrs: *attrs };
    push_sgr_chars(&mut v, &p);
    chars_to_string(&v)
}

/// The string with its trailing run of spaces removed.  A line that ends
/// in a Select Graphic Rendition sequence ends in `m`, not in a space, so
/// such a trailing sequence is preserved whole.
pub fn trim_end_preserve_ansi(s: &str) -> (r: String)
    ensures
        r@ == s@.take(spec_trimmed_len(s@)),
{
    let v = str_chars(s);
    let mut end: usize = v.len();
    proof {
        assert(v@.take(end as int) =~= v@);
    }
    while end > 0 && v[end - 1] == ' '
        invariant
            end <= v@.len(),
            spec_trimmed_len(v@) == spec_trimmed_len(v@.take(end as int)),
        decreases end,
    {
        proof {
            assert(v@.take(end as int).last() == v@[end - 1]);
        }
        end -= 1;
        proof {
            assert(v@.take(end + 1).drop_last() =~= v@.take(end as int));
        }
    }
    proof {
        if end > 0 {
            assert(v@.take(end as int).last() == v@[end - 1]);
        }
        assert(spec_trimmed_len(v@) == end);
    }
    let mut out: Vec<char> = Vec::new();
    let mut i: usize = 0;
    while i < end
        invariant
            i <= end,
            end <= v@.len(),
            out@ == v@.subrange(0, i as int),
        decreases end - i,
    {
        out.push(v[i]);
        i += 1;
        proof {
            assert(out@ =~= v@.subrange(0, i as int));
        }
    }
    chars_to_string(&out)
}

} // verus!

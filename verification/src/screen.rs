//! The terminal emulator: a byte-stream state machine over a cell grid.
//!
//! The emulator consumes the child program's output bytes and maintains a
//! fixed-size grid of cells, a cursor with the delayed-wrap flag, the pen
//! set by Select Graphic Rendition sequences, a queue of reply byte blobs
//! for the queries it consumed, and a ring of unrecognized sequences.
//!
//! Everything the machine does is stated first as a pure function on
//! [`ScreenModel`]; the executable code is proved to compute exactly that
//! function, byte for byte.

use vstd::prelude::*;

use crate::cell::{Cell, Pen};
use crate::debug::{spec_debug_push, DebugBuffer, DebugModel, UnhandledSequence};
use crate::grid::{
    blank_row, copy_row, grid_clear, grid_delete_lines, grid_insert_lines, grid_wf, row_delete,
    row_fill, row_insert, spec_blank_row, spec_grid_clear, spec_grid_delete_lines,
    spec_grid_insert_lines, spec_row_delete, spec_row_fill, spec_row_insert, vv,
};
use crate::render::{
    push_sgr_chars, spec_attr_cells_from, spec_attr_render, spec_attr_render_upto, spec_attr_line,
    spec_cell_visible, spec_end_pen, spec_pen_of, spec_plain_line, spec_plain_render,
    spec_plain_render_upto, spec_row_chars, spec_sgr_reset, spec_trimmed_len, spec_visible_len,
};
use crate::text::{chars_to_string, push_dec, push_dec_bytes, spec_dec, spec_dec_bytes};

verus! {

/// The states of the escape-sequence parser: ground, escape, control
/// sequence, operating-system command, device-control (and friends), and
/// multi-byte character assembly.
#[derive(Clone, Copy, PartialEq, Eq, Structural, Debug)]
pub enum PState {
    Ground,
    Escape,
    EscapeInter,
    Csi,
    Osc,
    OscEsc,
    Dcs,
    DcsEsc,
    Utf8,
}

/// The parser's collected state: mode, numeric parameters being gathered,
/// intermediate bytes, and the partially assembled multi-byte character.
#[verifier::ext_equal]
pub struct ParserModel {
    pub state: PState,
    pub params: Seq<u16>,
    pub cur: u16,
    pub cur_started: bool,
    pub inters: Seq<u8>,
    pub utf8_need: int,
    pub utf8_cp: u32,
}

impl ParserModel {
    /// The parser at rest.
    pub open spec fn spec_ground() -> ParserModel {
        ParserModel {
            state: PState::Ground,
            params: Seq::empty(),
            cur: 0,
            cur_started: false,
            inters: Seq::empty(),
            utf8_need: 0,
            utf8_cp: 0,
        }
    }
}

/// The full mathematical state of the emulator.
#[verifier::ext_equal]
pub struct ScreenModel {
    pub rows: int,
    pub cols: int,
    pub grid: Seq<Seq<Cell>>,
    pub cur_row: int,
    pub cur_col: int,
    pub pending_wrap: bool,
    pub pen: Pen,
    pub last_char: char,
    pub parser: ParserModel,
    pub replies: Seq<Seq<u8>>,
    pub debug: DebugModel,
}

/// Well-formedness: the dimensions are at least one and fit the window-size
/// word, the grid has exactly those dimensions, the cursor is inside the
/// grid, and a partially assembled character is within its bounds.
pub open spec fn wf(m: ScreenModel) -> bool {
    &&& 1 <= m.rows <= 0xFFFF
    &&& 1 <= m.cols <= 0xFFFF
    &&& grid_wf(m.grid, m.rows as nat, m.cols as nat)
    &&& 0 <= m.cur_row < m.rows
    &&& 0 <= m.cur_col < m.cols
    &&& (m.parser.state == PState::Utf8 ==> {
        &&& 1 <= m.parser.utf8_need <= 3
        &&& (m.parser.utf8_need == 3 ==> m.parser.utf8_cp < 8)
        &&& (m.parser.utf8_need == 2 ==> m.parser.utf8_cp < 512)
        &&& (m.parser.utf8_need == 1 ==> m.parser.utf8_cp < 32768)
    })
}

/// A fresh emulator model: a blank grid, the cursor at the origin, the
/// default pen, an idle parser, no replies, an empty diagnostics ring.
pub open spec fn spec_new(rows: int, cols: int, debug_capacity: int) -> ScreenModel {
    ScreenModel {
        rows,
        cols,
        grid: Seq::new(rows as nat, |i: int| spec_blank_row(cols as nat)),
        cur_row: 0,
        cur_col: 0,
        pending_wrap: false,
        pen: Pen::spec_default(),
        last_char: ' ',
        parser: ParserModel::spec_ground(),
        replies: Seq::empty(),
        debug: DebugModel {
            entries: Seq::empty(),
            capacity: debug_capacity as nat,
            dropped: 0,
        },
    }
}

/// Printing one character: an earlier delayed wrap is taken first (to
/// column zero of the next line, scrolling at the bottom); the character is
/// painted with the pen at the cursor; the cursor advances, except at the
/// last column, where it stays put and the wrap is left pending.
pub open spec fn spec_print(m: ScreenModel, c: char) -> ScreenModel {
    spec_put_char(spec_wrap_step(m), c)
}

/// An earlier delayed wrap taken: down to column zero of the next line
/// (scrolling at the bottom); without one, no motion.
pub open spec fn spec_wrap_step(m: ScreenModel) -> ScreenModel {
    if m.pending_wrap {
        spec_line_feed(m)
    } else {
        m
    }
}

/// The character painted with the pen at the cursor; the cursor advances,
/// except at the last column, where it stays put and the wrap is left
/// pending.
pub open spec fn spec_put_char(m: ScreenModel, c: char) -> ScreenModel {
    let g = m.grid.update(m.cur_row, m.grid[m.cur_row].update(m.cur_col, m.pen.spec_paint(c)));
    let m2 = ScreenModel { grid: g, last_char: c, ..m };
    if m2.cur_col + 1 == m2.cols {
        ScreenModel { pending_wrap: true, ..m2 }
    } else {
        ScreenModel { cur_col: m2.cur_col + 1, ..m2 }
    }
}

/// The line-feed motion: down one line (scrolling at the bottom) and to
/// column zero, the delayed wrap forgotten.
pub open spec fn spec_line_feed(m: ScreenModel) -> ScreenModel {
    if m.cur_row + 1 == m.rows {
        ScreenModel {
            grid: spec_grid_delete_lines(m.grid, m.cols as nat, 0, 1),
            cur_col: 0,
            pending_wrap: false,
            ..m
        }
    } else {
        ScreenModel { cur_row: m.cur_row + 1, cur_col: 0, pending_wrap: false, ..m }
    }
}

/// One C0 control: line feed, carriage return, horizontal tab (fixed stops
/// every eight columns), and backspace; every other control byte is
/// ignored.  Backspace forgets a delayed wrap and still moves left, the
/// DEC way.
pub open spec fn spec_execute(m: ScreenModel, b: u8) -> ScreenModel {
    if b == 0x0A {
        spec_line_feed(m)
    } else if b == 0x0D {
        ScreenModel { cur_col: 0, pending_wrap: false, ..m }
    } else if b == 0x09 {
        let t = (m.cur_col / 8 + 1) * 8;
        ScreenModel {
            cur_col: if t >= m.cols {
                m.cols - 1
            } else {
                t
            },
            ..m
        }
    } else if b == 0x08 {
        ScreenModel {
            cur_col: if m.cur_col > 0 {
                m.cur_col - 1
            } else {
                0
            },
            pending_wrap: false,
            ..m
        }
    } else {
        m
    }
}

/// Resizing: content is kept top-aligned and left-aligned as far as it
/// fits, new space is blank, the cursor is clamped into the new rectangle,
/// and a delayed wrap is forgotten.
pub open spec fn spec_resize(m: ScreenModel, rows: int, cols: int) -> ScreenModel {
    ScreenModel {
        rows,
        cols,
        grid: Seq::new(
            rows as nat,
            |i: int|
                Seq::new(
                    cols as nat,
                    |j: int|
                        if i < m.rows && j < m.cols {
                            m.grid[i][j]
                        } else {
                            Cell::spec_blank()
                        },
                ),
        ),
        cur_row: if m.cur_row > rows - 1 {
            rows - 1
        } else {
            m.cur_row
        },
        cur_col: if m.cur_col > cols - 1 {
            cols - 1
        } else {
            m.cur_col
        },
        pending_wrap: false,
        ..m
    }
}


/// Parameter `i` as received, or `def` where absent.
pub open spec fn spec_p_or(params: Seq<u16>, i: int, def: int) -> int {
    if 0 <= i < params.len() {
        params[i] as int
    } else {
        def
    }
}

/// The count parameter: the first parameter, absent or zero meaning one.
pub open spec fn spec_p_count(params: Seq<u16>) -> int {
    let v = spec_p_or(params, 0, 1);
    if v < 1 {
        1
    } else {
        v
    }
}

/// Parameter `i` as a zero-based position: one-based as received, absent
/// or zero meaning the first position.
pub open spec fn spec_p_pos(params: Seq<u16>, i: int) -> int {
    let v = spec_p_or(params, i, 1);
    if v < 1 {
        0
    } else {
        v - 1
    }
}

/// A value clamped to the last row.
pub open spec fn spec_clamp_row(m: ScreenModel, r: int) -> int {
    if r > m.rows - 1 {
        m.rows - 1
    } else {
        r
    }
}

/// A value clamped to the last column.
pub open spec fn spec_clamp_col(m: ScreenModel, c: int) -> int {
    if c > m.cols - 1 {
        m.cols - 1
    } else {
        c
    }
}

/// The pen after one simple Select Graphic Rendition code: reset, the
/// style flags on and off, the 8- and 16-color codes, and the defaults;
/// unknown codes are ignored.
pub open spec fn spec_sgr_simple(pen: Pen, p: int) -> Pen {
    if p == 0 {
        Pen::spec_default()
    } else if p == 1 {
        Pen { attrs: crate::cell::Attrs { bold: true, ..pen.attrs }, ..pen }
    } else if p == 2 {
        Pen { attrs: crate::cell::Attrs { dim: true, ..pen.attrs }, ..pen }
    } else if p == 3 {
        Pen { attrs: crate::cell::Attrs { italic: true, ..pen.attrs }, ..pen }
    } else if p == 4 {
        Pen { attrs: crate::cell::Attrs { underline: true, ..pen.attrs }, ..pen }
    } else if p == 7 {
        Pen { attrs: crate::cell::Attrs { inverse: true, ..pen.attrs }, ..pen }
    } else if p == 8 {
        Pen { attrs: crate::cell::Attrs { hidden: true, ..pen.attrs }, ..pen }
    } else if p == 9 {
        Pen { attrs: crate::cell::Attrs { strikeout: true, ..pen.attrs }, ..pen }
    } else if p == 22 {
        Pen { attrs: crate::cell::Attrs { bold: false, dim: false, ..pen.attrs }, ..pen }
    } else if p == 23 {
        Pen { attrs: crate::cell::Attrs { italic: false, ..pen.attrs }, ..pen }
    } else if p == 24 {
        Pen { attrs: crate::cell::Attrs { underline: false, ..pen.attrs }, ..pen }
    } else if p == 27 {
        Pen { attrs: crate::cell::Attrs { inverse: false, ..pen.attrs }, ..pen }
    } else if p == 28 {
        Pen { attrs: crate::cell::Attrs { hidden: false, ..pen.attrs }, ..pen }
    } else if p == 29 {
        Pen { attrs: crate::cell::Attrs { strikeout: false, ..pen.attrs }, ..pen }
    } else if 30 <= p <= 37 {
        Pen { fg: crate::cell::Color::Ansi((p - 30) as u8), ..pen }
    } else if p == 39 {
        Pen { fg: crate::cell::Color::Default, ..pen }
    } else if 40 <= p <= 47 {
        Pen { bg: crate::cell::Color::Ansi((p - 40) as u8), ..pen }
    } else if p == 49 {
        Pen { bg: crate::cell::Color::Default, ..pen }
    } else if 90 <= p <= 97 {
        Pen { fg: crate::cell::Color::Ansi((p - 90 + 8) as u8), ..pen }
    } else if 100 <= p <= 107 {
        Pen { bg: crate::cell::Color::Ansi((p - 100 + 8) as u8), ..pen }
    } else {
        pen
    }
}

/// The pen after a Select Graphic Rendition parameter list, read from
/// position `i` on: the extended 256-palette and direct-color forms
/// consume their arguments, a malformed extended form ends the
/// interpretation, and every other code is one simple step.
pub open spec fn spec_sgr_from(pen: Pen, params: Seq<u16>, i: int) -> Pen
    decreases params.len() - i,
{
    if i < 0 || i >= params.len() {
        pen
    } else {
        let p = params[i] as int;
        if p == 38 || p == 48 {
            if i + 2 < params.len() && params[i + 1] == 5 && params[i + 2] <= 255 {
                let c = crate::cell::Color::Indexed(params[i + 2] as u8);
                let pen2 = if p == 38 {
                    Pen { fg: c, ..pen }
                } else {
                    Pen { bg: c, ..pen }
                };
                spec_sgr_from(pen2, params, i + 3)
            } else if i + 4 < params.len() && params[i + 1] == 2 && params[i + 2] <= 255 && params[i
                + 3] <= 255 && params[i + 4] <= 255 {
                let c = crate::cell::Color::Rgb(
                    params[i + 2] as u8,
                    params[i + 3] as u8,
                    params[i + 4] as u8,
                );
                let pen2 = if p == 38 {
                    Pen { fg: c, ..pen }
                } else {
                    Pen { bg: c, ..pen }
                };
                spec_sgr_from(pen2, params, i + 5)
            } else {
                pen
            }
        } else {
            spec_sgr_from(spec_sgr_simple(pen, p), params, i + 1)
        }
    }
}

/// The pen after a Select Graphic Rendition sequence; an empty parameter
/// list means reset.
pub open spec fn spec_sgr(pen: Pen, params: Seq<u16>) -> Pen {
    if params.len() == 0 {
        Pen::spec_default()
    } else {
        spec_sgr_from(pen, params, 0)
    }
}

/// A character printed `n` times over.
pub open spec fn spec_print_n(m: ScreenModel, c: char, n: int) -> ScreenModel
    decreases n,
{
    if n <= 0 {
        m
    } else {
        spec_print_n(spec_print(m, c), c, n - 1)
    }
}

/// Printing `n + 1` times is printing `n` times and then once more.
pub proof fn lemma_print_n_snoc(m: ScreenModel, c: char, n: int)
    requires
        n >= 0,
    ensures
        spec_print_n(m, c, n + 1) == spec_print(spec_print_n(m, c, n), c),
    decreases n,
{
    assert(spec_print_n(m, c, n + 1) == spec_print_n(spec_print(m, c), c, n));
    if n == 0 {
        assert(spec_print_n(spec_print(m, c), c, 0) == spec_print(m, c));
        assert(spec_print_n(m, c, 0) == m);
    } else {
        lemma_print_n_snoc(spec_print(m, c), c, n - 1);
    }
}

/// The reply to a device status query: all well.
pub open spec fn spec_dsr_ok_reply() -> Seq<u8> {
    seq![0x1Bu8, 0x5Bu8, 0x30u8, 0x6Eu8]
}

/// The reply to a cursor position query: the cursor, one-indexed, as
/// `ESC [ row ; col R`.
pub open spec fn spec_cpr_reply(row1: int, col1: int) -> Seq<u8> {
    seq![0x1Bu8, 0x5Bu8] + spec_dec_bytes(row1) + seq![0x3Bu8] + spec_dec_bytes(col1) + seq![
        0x52u8,
    ]
}

/// The reply to a primary device attributes query: a VT100 with advanced
/// video, `ESC [ ? 1 ; 2 c`.
pub open spec fn spec_da_reply() -> Seq<u8> {
    seq![0x1Bu8, 0x5Bu8, 0x3Fu8, 0x31u8, 0x3Bu8, 0x32u8, 0x63u8]
}

/// A byte as the character of its code.
pub open spec fn spec_ascii(b: u8) -> char {
    (b as u32) as char
}

/// The characters of a byte sequence, code for code.
pub open spec fn spec_ascii_chars(bs: Seq<u8>) -> Seq<char> {
    Seq::new(bs.len(), |i: int| spec_ascii(bs[i]))
}

/// The first `k` parameters rendered in decimal, separated by semicolons.
pub open spec fn spec_params_chars_upto(params: Seq<u16>, k: int) -> Seq<char>
    decreases k,
{
    if k <= 0 {
        Seq::empty()
    } else {
        spec_params_chars_upto(params, k - 1) + (if k - 1 > 0 {
            seq![';']
        } else {
            Seq::empty()
        }) + spec_dec(params[k - 1] as int)
    }
}

/// The first `k` parameters rendered in decimal bytes, separated by
/// semicolons.
pub open spec fn spec_params_bytes_upto(params: Seq<u16>, k: int) -> Seq<u8>
    decreases k,
{
    if k <= 0 {
        Seq::empty()
    } else {
        spec_params_bytes_upto(params, k - 1) + (if k - 1 > 0 {
            seq![0x3Bu8]
        } else {
            Seq::empty()
        }) + spec_dec_bytes(params[k - 1] as int)
    }
}

/// How an unrecognized control sequence is written in the diagnostics
/// ring: a backslash-e rendering of the introducer, intermediates,
/// parameters and final byte.
pub open spec fn spec_csi_debug_seq(inters: Seq<u8>, params: Seq<u16>, action: u8) -> Seq<char> {
    seq!['\\', 'e', '['] + spec_ascii_chars(inters) + spec_params_chars_upto(
        params,
        params.len() as int,
    ) + seq![spec_ascii(action)]
}

/// The raw bytes of an unrecognized control sequence, reconstructed.
pub open spec fn spec_csi_debug_raw(inters: Seq<u8>, params: Seq<u16>, action: u8) -> Seq<u8> {
    seq![0x1Bu8, 0x5Bu8] + inters + spec_params_bytes_upto(params, params.len() as int) + seq![
        action,
    ]
}

/// How an unrecognized escape sequence is written in the diagnostics ring.
pub open spec fn spec_esc_debug_seq(inters: Seq<u8>, b: u8) -> Seq<char> {
    seq!['\\', 'e'] + spec_ascii_chars(inters) + seq![spec_ascii(b)]
}

/// The raw bytes of an unrecognized escape sequence, reconstructed.
pub open spec fn spec_esc_debug_raw(inters: Seq<u8>, b: u8) -> Seq<u8> {
    seq![0x1Bu8] + inters + seq![b]
}

/// Erase from the cursor to the end of the screen: the rest of the cursor
/// line, and every line below it.
pub open spec fn spec_erase_below(m: ScreenModel) -> Seq<Seq<Cell>> {
    Seq::new(
        m.grid.len(),
        |i: int|
            if i < m.cur_row {
                m.grid[i]
            } else if i == m.cur_row {
                spec_row_fill(m.grid[i], m.cur_col, m.cols, Cell::spec_blank())
            } else {
                spec_blank_row(m.cols as nat)
            },
    )
}

/// Erase from the start of the screen to the cursor: every line above the
/// cursor line, and the cursor line through the cursor.
pub open spec fn spec_erase_above(m: ScreenModel) -> Seq<Seq<Cell>> {
    Seq::new(
        m.grid.len(),
        |i: int|
            if i < m.cur_row {
                spec_blank_row(m.cols as nat)
            } else if i == m.cur_row {
                spec_row_fill(m.grid[i], 0, m.cur_col + 1, Cell::spec_blank())
            } else {
                m.grid[i]
            },
    )
}

/// The effect of one complete control sequence, as the table of required
/// semantics gives it: cursor positioning, erasure, shifting, scrolling,
/// tabs, repeat, attributes, and the queries that enqueue replies;
/// anything else is recorded in the diagnostics ring.
#[verifier::opaque]
pub open spec fn spec_csi_apply(
    m: ScreenModel,
    action: u8,
    params: Seq<u16>,
    inters: Seq<u8>,
) -> ScreenModel {
    if action == 0x48 || action == 0x66 {  // H, f: cursor position
        ScreenModel {
            cur_row: spec_clamp_row(m, spec_p_pos(params, 0)),
            cur_col: spec_clamp_col(m, spec_p_pos(params, 1)),
            pending_wrap: false,
            ..m
        }
    } else if action == 0x41 {  // A: cursor up
        let n = spec_p_count(params);
        ScreenModel {
            cur_row: if m.cur_row - n < 0 {
                0
            } else {
                m.cur_row - n
            },
            pending_wrap: false,
            ..m
        }
    } else if action == 0x42 {  // B: cursor down
        ScreenModel {
            cur_row: spec_clamp_row(m, m.cur_row + spec_p_count(params)),
            pending_wrap: false,
            ..m
        }
    } else if action == 0x43 {  // C: cursor forward
        ScreenModel {
            cur_col: spec_clamp_col(m, m.cur_col + spec_p_count(params)),
            pending_wrap: false,
            ..m
        }
    } else if action == 0x44 {  // D: cursor back
        let n = spec_p_count(params);
        ScreenModel {
            cur_col: if m.cur_col - n < 0 {
                0
            } else {
                m.cur_col - n
            },
            pending_wrap: false,
            ..m
        }
    } else if action == 0x47 {  // G: column absolute
        ScreenModel { cur_col: spec_clamp_col(m, spec_p_pos(params, 0)), pending_wrap: false, ..m }
    } else if action == 0x64 {  // d: row absolute
        ScreenModel { cur_row: spec_clamp_row(m, spec_p_pos(params, 0)), pending_wrap: false, ..m }
    } else if action == 0x4A {  // J: erase display
        let mode = spec_p_or(params, 0, 0);
        if mode == 0 {
            ScreenModel { grid: spec_erase_below(m), ..m }
        } else if mode == 1 {
            ScreenModel { grid: spec_erase_above(m), ..m }
        } else if mode == 2 {
            ScreenModel {
                grid: spec_grid_clear(m.grid, m.cols as nat),
                cur_row: 0,
                cur_col: 0,
                pending_wrap: false,
                ..m
            }
        } else {
            m
        }
    } else if action == 0x4B {  // K: erase line
        let mode = spec_p_or(params, 0, 0);
        if mode == 0 {
            ScreenModel {
                grid: m.grid.update(
                    m.cur_row,
                    spec_row_fill(m.grid[m.cur_row], m.cur_col, m.cols, Cell::spec_blank()),
                ),
                ..m
            }
        } else if mode == 1 {
            ScreenModel {
                grid: m.grid.update(
                    m.cur_row,
                    spec_row_fill(m.grid[m.cur_row], 0, m.cur_col + 1, Cell::spec_blank()),
                ),
                ..m
            }
        } else if mode == 2 {
            ScreenModel {
                grid: m.grid.update(
                    m.cur_row,
                    spec_row_fill(m.grid[m.cur_row], 0, m.cols, Cell::spec_blank()),
                ),
                ..m
            }
        } else {
            m
        }
    } else if action == 0x4C {  // L: insert lines
        ScreenModel {
            grid: spec_grid_insert_lines(m.grid, m.cols as nat, m.cur_row, spec_p_count(params)),
            ..m
        }
    } else if action == 0x4D {  // M: delete lines
        ScreenModel {
            grid: spec_grid_delete_lines(m.grid, m.cols as nat, m.cur_row, spec_p_count(params)),
            ..m
        }
    } else if action == 0x50 {  // P: delete characters
        ScreenModel {
            grid: m.grid.update(
                m.cur_row,
                spec_row_delete(m.grid[m.cur_row], m.cur_col, spec_p_count(params)),
            ),
            ..m
        }
    } else if action == 0x40 {  // @: insert characters
        ScreenModel {
            grid: m.grid.update(
                m.cur_row,
                spec_row_insert(m.grid[m.cur_row], m.cur_col, spec_p_count(params)),
            ),
            ..m
        }
    } else if action == 0x58 {  // X: erase characters
        let to = if m.cur_col + spec_p_count(params) > m.cols {
            m.cols
        } else {
            m.cur_col + spec_p_count(params)
        };
        ScreenModel {
            grid: m.grid.update(
                m.cur_row,
                spec_row_fill(m.grid[m.cur_row], m.cur_col, to, Cell::spec_blank()),
            ),
            ..m
        }
    } else if action == 0x53 {  // S: scroll up
        ScreenModel {
            grid: spec_grid_delete_lines(m.grid, m.cols as nat, 0, spec_p_count(params)),
            ..m
        }
    } else if action == 0x54 {  // T: scroll down
        ScreenModel {
            grid: spec_grid_insert_lines(m.grid, m.cols as nat, 0, spec_p_count(params)),
            ..m
        }
    } else if action == 0x49 {  // I: forward tab
        let t = (m.cur_col / 8 + spec_p_count(params)) * 8;
        ScreenModel { cur_col: spec_clamp_col(m, t), ..m }
    } else if action == 0x5A {  // Z: back tab
        ScreenModel {
            cur_col: if m.cur_col > 0 {
                ((m.cur_col - 1) / 8) * 8
            } else {
                0
            },
            ..m
        }
    } else if action == 0x62 {  // b: repeat the last printed character
        spec_print_n(m, m.last_char, spec_p_count(params))
    } else if action == 0x67 {  // g: clear tab stop; fixed stops, ignored
        m
    } else if action == 0x6D {  // m: select graphic rendition
        ScreenModel { pen: spec_sgr(m.pen, params), ..m }
    } else if action == 0x6E {  // n: device status report
        let mode = spec_p_or(params, 0, 0);
        if mode == 5 {
            ScreenModel { replies: m.replies.push(spec_dsr_ok_reply()), ..m }
        } else if mode == 6 {
            ScreenModel {
                replies: m.replies.push(spec_cpr_reply(m.cur_row + 1, m.cur_col + 1)),
                ..m
            }
        } else {
            m
        }
    } else if action == 0x63 {  // c: primary device attributes
        if spec_p_or(params, 0, 0) == 0 {
            ScreenModel { replies: m.replies.push(spec_da_reply()), ..m }
        } else {
            m
        }
    } else {
        ScreenModel {
            debug: spec_debug_push(
                m.debug,
                spec_csi_debug_seq(inters, params, action),
                spec_csi_debug_raw(inters, params, action),
            ),
            ..m
        }
    }
}

/// The model with another parser state.
pub open spec fn with_parser(m: ScreenModel, p: ParserModel) -> ScreenModel {
    ScreenModel { parser: p, ..m }
}

/// The parser returned to rest.
pub open spec fn parser_to_ground(m: ScreenModel) -> ScreenModel {
    with_parser(m, ParserModel::spec_ground())
}

/// The parser freshly entered into a collecting state.
pub open spec fn parser_start_state(m: ScreenModel, st: PState, need: int, cp: u32) -> ScreenModel {
    with_parser(
        m,
        ParserModel { state: st, utf8_need: need, utf8_cp: cp, ..ParserModel::spec_ground() },
    )
}

/// The parser keeping its collected data, in another state.
pub open spec fn parser_with_state(m: ScreenModel, st: PState) -> ScreenModel {
    with_parser(m, ParserModel { state: st, ..m.parser })
}

/// The effect of one complete two-byte escape sequence: setting a tab stop
/// is accepted and ignored (the stops are fixed); anything else is
/// recorded in the diagnostics ring.
pub open spec fn spec_esc_dispatch(m: ScreenModel, inters: Seq<u8>, b: u8) -> ScreenModel {
    if b == 0x48 {
        m
    } else {
        ScreenModel {
            debug: spec_debug_push(m.debug, spec_esc_debug_seq(inters, b), spec_esc_debug_raw(inters, b)),
            ..m
        }
    }
}

/// One byte in the ground state: printables print (multi-byte characters
/// are assembled first), the escape byte opens a sequence, controls
/// execute, and stray or malformed bytes fall away.
pub open spec fn spec_ground_step(m: ScreenModel, b: u8) -> ScreenModel {
    if b == 0x1B {
        parser_start_state(m, PState::Escape, 0, 0)
    } else if b == 0x18 || b == 0x1A {
        m
    } else if b < 0x20 {
        spec_execute(m, b)
    } else if b < 0x7F {
        spec_print(m, spec_ascii(b))
    } else if b == 0x7F {
        m
    } else if 0xC0 <= b && b <= 0xDF {
        parser_start_state(m, PState::Utf8, 1, (b - 0xC0) as u32)
    } else if 0xE0 <= b && b <= 0xEF {
        parser_start_state(m, PState::Utf8, 2, (b - 0xE0) as u32)
    } else if 0xF0 <= b && b <= 0xF7 {
        parser_start_state(m, PState::Utf8, 3, (b - 0xF0) as u32)
    } else {
        m
    }
}

/// One byte after the escape byte: openers for the longer sequence kinds,
/// intermediates, or a final byte that dispatches.
pub open spec fn spec_escape_step(m: ScreenModel, b: u8) -> ScreenModel {
    if b == 0x5B {
        parser_start_state(m, PState::Csi, 0, 0)
    } else if b == 0x5D {
        parser_start_state(m, PState::Osc, 0, 0)
    } else if b == 0x50 || b == 0x58 || b == 0x5E || b == 0x5F {
        parser_start_state(m, PState::Dcs, 0, 0)
    } else if 0x20 <= b && b <= 0x2F {
        with_parser(
            m,
            ParserModel {
                state: PState::EscapeInter,
                inters: m.parser.inters.push(b),
                ..m.parser
            },
        )
    } else if 0x30 <= b && b <= 0x7E {
        spec_esc_dispatch(parser_to_ground(m), m.parser.inters, b)
    } else if b == 0x1B {
        parser_start_state(m, PState::Escape, 0, 0)
    } else if b == 0x18 || b == 0x1A {
        parser_to_ground(m)
    } else if b < 0x20 {
        spec_execute(m, b)
    } else if b == 0x7F {
        m
    } else {
        parser_to_ground(m)
    }
}

/// One byte while collecting escape intermediates.
pub open spec fn spec_escape_inter_step(m: ScreenModel, b: u8) -> ScreenModel {
    if 0x20 <= b && b <= 0x2F {
        with_parser(m, ParserModel { inters: m.parser.inters.push(b), ..m.parser })
    } else if 0x30 <= b && b <= 0x7E {
        spec_esc_dispatch(parser_to_ground(m), m.parser.inters, b)
    } else if b == 0x1B {
        parser_start_state(m, PState::Escape, 0, 0)
    } else if b == 0x18 || b == 0x1A {
        parser_to_ground(m)
    } else if b < 0x20 {
        spec_execute(m, b)
    } else if b == 0x7F {
        m
    } else {
        parser_to_ground(m)
    }
}

/// A parameter digit folded in, saturating at the largest parameter value.
pub open spec fn spec_param_digit(cur: u16, d: int) -> u16 {
    if cur as int * 10 + d > 0xFFFF {
        0xFFFF as u16
    } else {
        (cur as int * 10 + d) as u16
    }
}

/// The parameter list as it stands when the final byte arrives: a started
/// or separator-implied last parameter is appended.
pub open spec fn spec_finished_params(m: ScreenModel) -> Seq<u16> {
    if m.parser.cur_started || m.parser.params.len() > 0 {
        m.parser.params.push(m.parser.cur)
    } else {
        m.parser.params
    }
}

/// One byte in a control sequence: digits and separators build the
/// parameter list, private markers and intermediates are collected, a
/// final byte dispatches, controls still execute.
pub open spec fn spec_csi_step(m: ScreenModel, b: u8) -> ScreenModel {
    if 0x30 <= b && b <= 0x39 {
        with_parser(
            m,
            ParserModel {
                cur: spec_param_digit(m.parser.cur, (b - 0x30) as int),
                cur_started: true,
                ..m.parser
            },
        )
    } else if b == 0x3B || b == 0x3A {
        with_parser(
            m,
            ParserModel {
                params: m.parser.params.push(m.parser.cur),
                cur: 0,
                cur_started: false,
                ..m.parser
            },
        )
    } else if 0x3C <= b && b <= 0x3F {
        with_parser(m, ParserModel { inters: m.parser.inters.push(b), ..m.parser })
    } else if 0x20 <= b && b <= 0x2F {
        with_parser(m, ParserModel { inters: m.parser.inters.push(b), ..m.parser })
    } else if 0x40 <= b && b <= 0x7E {
        spec_csi_apply(parser_to_ground(m), b, spec_finished_params(m), m.parser.inters)
    } else if b == 0x1B {
        parser_start_state(m, PState::Escape, 0, 0)
    } else if b == 0x18 || b == 0x1A {
        parser_to_ground(m)
    } else if b < 0x20 {
        spec_execute(m, b)
    } else if b == 0x7F {
        m
    } else {
        parser_to_ground(m)
    }
}

/// One byte in an operating-system-command string: swallowed until the
/// bell or the string terminator.
pub open spec fn spec_osc_step(m: ScreenModel, b: u8) -> ScreenModel {
    if b == 0x07 {
        parser_to_ground(m)
    } else if b == 0x1B {
        parser_with_state(m, PState::OscEsc)
    } else {
        m
    }
}

/// The escape byte seen inside an operating-system-command string: a
/// following backslash terminates it; any other byte is handled as after a
/// plain escape.
pub open spec fn spec_osc_esc_step(m: ScreenModel, b: u8) -> ScreenModel {
    if b == 0x5C {
        parser_to_ground(m)
    } else {
        spec_escape_step(parser_start_state(m, PState::Escape, 0, 0), b)
    }
}

/// One byte in a device-control (or similar) string: swallowed until the
/// string terminator.
pub open spec fn spec_dcs_step(m: ScreenModel, b: u8) -> ScreenModel {
    if b == 0x1B {
        parser_with_state(m, PState::DcsEsc)
    } else {
        m
    }
}

/// The escape byte seen inside a device-control string.
pub open spec fn spec_dcs_esc_step(m: ScreenModel, b: u8) -> ScreenModel {
    if b == 0x5C {
        parser_to_ground(m)
    } else {
        spec_escape_step(parser_start_state(m, PState::Escape, 0, 0), b)
    }
}

/// Whether a code is a Unicode scalar value.
pub open spec fn spec_is_scalar(u: u32) -> bool {
    u < 0xD800 || (0xE000 <= u && u <= 0x10FFFF)
}

/// One byte while assembling a multi-byte character: continuation bytes
/// accumulate; when complete, a valid scalar prints and an invalid one
/// falls away; any other byte abandons the character and is handled from
/// the ground state.
pub open spec fn spec_utf8_step(m: ScreenModel, b: u8) -> ScreenModel {
    if 0x80 <= b && b <= 0xBF {
        let cp2 = (m.parser.utf8_cp * 64 + (b - 0x80) as u32) as u32;
        if m.parser.utf8_need > 1 {
            with_parser(
                m,
                ParserModel {
                    utf8_need: m.parser.utf8_need - 1,
                    utf8_cp: cp2,
                    ..m.parser
                },
            )
        } else {
            let m1 = parser_to_ground(m);
            if spec_is_scalar(cp2) {
                spec_print(m1, cp2 as char)
            } else {
                m1
            }
        }
    } else {
        spec_ground_step(parser_to_ground(m), b)
    }
}

/// One byte of the output stream, dispatched on the parser's state.
pub open spec fn spec_step(m: ScreenModel, b: u8) -> ScreenModel {
    match m.parser.state {
        PState::Ground => spec_ground_step(m, b),
        PState::Escape => spec_escape_step(m, b),
        PState::EscapeInter => spec_escape_inter_step(m, b),
        PState::Csi => spec_csi_step(m, b),
        PState::Osc => spec_osc_step(m, b),
        PState::OscEsc => spec_osc_esc_step(m, b),
        PState::Dcs => spec_dcs_step(m, b),
        PState::DcsEsc => spec_dcs_esc_step(m, b),
        PState::Utf8 => spec_utf8_step(m, b),
    }
}

/// A whole byte sequence consumed, one byte after the other.
pub open spec fn spec_feed(m: ScreenModel, bytes: Seq<u8>) -> ScreenModel
    decreases bytes.len(),
{
    if bytes.len() == 0 {
        m
    } else {
        spec_feed(spec_step(m, bytes[0]), bytes.drop_first())
    }
}

/// Consuming one more byte after a sequence is stepping once after
/// consuming the sequence.
pub proof fn lemma_feed_snoc(m: ScreenModel, bytes: Seq<u8>, b: u8)
    ensures
        spec_feed(m, bytes.push(b)) == spec_step(spec_feed(m, bytes), b),
    decreases bytes.len(),
{
    if bytes.len() == 0 {
        assert(bytes.push(b).drop_first() =~= Seq::<u8>::empty());
        assert(bytes.push(b)[0] == b);
        assert(spec_feed(m, bytes.push(b)) == spec_feed(
            spec_step(m, b),
            bytes.push(b).drop_first(),
        ));
        assert(spec_feed(spec_step(m, b), Seq::<u8>::empty()) == spec_step(m, b));
        assert(spec_feed(m, bytes) == m);
    } else {
        assert(bytes.push(b).drop_first() =~= bytes.drop_first().push(b));
        assert(bytes.push(b)[0] == bytes[0]);
        assert(spec_feed(m, bytes.push(b)) == spec_feed(
            spec_step(m, bytes[0]),
            bytes.push(b).drop_first(),
        ));
        assert(spec_feed(m, bytes) == spec_feed(spec_step(m, bytes[0]), bytes.drop_first()));
        lemma_feed_snoc(spec_step(m, bytes[0]), bytes.drop_first(), b);
    }
}

/// The terminal emulator.  See the module documentation.
pub struct Screen {
    rows: usize,
    cols: usize,
    cells: Vec<Vec<Cell>>,
    cursor_row: usize,
    cursor_col: usize,
    pending_wrap: bool,
    pen: Pen,
    last_char: char,
    pstate: PState,
    params: Vec<u16>,
    cur_param: u16,
    cur_started: bool,
    inters: Vec<u8>,
    utf8_need: u8,
    utf8_cp: u32,
    pending_responses: Vec<Vec<u8>>,
    debug: DebugBuffer,
}

impl View for Screen {
    type V = ScreenModel;

    closed spec fn view(&self) -> ScreenModel {
        ScreenModel {
            rows: self.rows as int,
            cols: self.cols as int,
            grid: vv(self.cells@),
            cur_row: self.cursor_row as int,
            cur_col: self.cursor_col as int,
            pending_wrap: self.pending_wrap,
            pen: self.pen,
            last_char: self.last_char,
            parser: ParserModel {
                state: self.pstate,
                params: self.params@,
                cur: self.cur_param,
                cur_started: self.cur_started,
                inters: self.inters@,
                utf8_need: self.utf8_need as int,
                utf8_cp: self.utf8_cp,
            },
            replies: vv(self.pending_responses@),
            debug: self.debug@,
        }
    }
}

impl Screen {
    /// A fresh screen with the default diagnostics capacity of ten
    /// entries.
    pub fn new(rows: usize, cols: usize) -> (r: Screen)
        requires
            1 <= rows <= 0xFFFF,
            1 <= cols <= 0xFFFF,
        ensures
            r@ == spec_new(rows as int, cols as int, 10),
            wf(r@),
    {
        Screen::with_debug_buffer(rows, cols, 10)
    }

    /// A fresh screen whose diagnostics ring holds up to
    /// `debug_buffer_size` entries.
    pub fn with_debug_buffer(rows: usize, cols: usize, debug_buffer_size: usize) -> (r: Screen)
        requires
            1 <= rows <= 0xFFFF,
            1 <= cols <= 0xFFFF,
        ensures
            r@ == spec_new(rows as int, cols as int, debug_buffer_size as int),
            wf(r@),
    {
        let mut cells: Vec<Vec<Cell>> = Vec::new();
        let mut i: usize = 0;
        while i < rows
            invariant
                i <= rows,
                cells@.len() == i,
                forall|k: int|
                    0 <= k < i ==> (#[trigger] cells@[k])@ == spec_blank_row(cols as nat),
            decreases rows - i,
        {
            cells.push(blank_row(cols));
            i += 1;
        }
        let r = Screen {
            rows,
            cols,
            cells,
            cursor_row: 0,
            cursor_col: 0,
            pending_wrap: false,
            pen: Pen::plain(),
            last_char: ' ',
            pstate: PState::Ground,
            params: Vec::new(),
            cur_param: 0,
            cur_started: false,
            inters: Vec::new(),
            utf8_need: 0,
            utf8_cp: 0,
            pending_responses: Vec::new(),
            debug: DebugBuffer::new(debug_buffer_size),
        };
        proof {
            assert(r@ =~~= spec_new(rows as int, cols as int, debug_buffer_size as int));
        }
        r
    }

    /// The dimensions as (rows, cols).
    pub fn dimensions(&self) -> (r: (usize, usize))
        ensures
            r.0 as int == self@.rows,
            r.1 as int == self@.cols,
    {
        (self.rows, self.cols)
    }

    /// The cursor as (row, col), zero-indexed, always inside the grid.
    pub fn cursor_position(&self) -> (r: (usize, usize))
        ensures
            r.0 as int == self@.cur_row,
            r.1 as int == self@.cur_col,
    {
        (self.cursor_row, self.cursor_col)
    }

    /// Remove the top line and append a blank line at the bottom.
    pub fn scroll_up(&mut self)
        requires
            wf(old(self)@),
        ensures
            final(self)@ == (ScreenModel {
                grid: spec_grid_delete_lines(old(self)@.grid, old(self)@.cols as nat, 0, 1),
                ..old(self)@
            }),
            wf(final(self)@),
    {
        proof {
            crate::grid::rows_wf_from_grid_wf(
                self.cells@,
                old(self)@.rows as nat,
                old(self)@.cols as nat,
            );
        }
        let cols = self.cols;
        grid_delete_lines(&mut self.cells, cols, 0, 1);
        proof {
            assert(self@ =~~= (ScreenModel {
                grid: spec_grid_delete_lines(old(self)@.grid, old(self)@.cols as nat, 0, 1),
                ..old(self)@
            }));
        }
    }

    /// Hand out and clear the queued reply blobs.
    pub fn take_pending_responses(&mut self) -> (r: Vec<Vec<u8>>)
        ensures
            vv(r@) == old(self)@.replies,
            final(self)@ == (ScreenModel { replies: Seq::empty(), ..old(self)@ }),
    {
        let mut out: Vec<Vec<u8>> = Vec::new();
        core::mem::swap(&mut self.pending_responses, &mut out);
        proof {
            assert(vv(Seq::<Vec<u8>>::empty()) =~~= Seq::<Seq<u8>>::empty());
            assert(self@ =~~= (ScreenModel { replies: Seq::empty(), ..old(self)@ }));
        }
        out
    }

    /// The recorded unrecognized sequences, oldest first.
    pub fn get_debug_entries(&self) -> (r: Vec<UnhandledSequence>)
        ensures
            r@.len() == self@.debug.entries.len(),
            forall|i: int| 0 <= i < r@.len() ==> (#[trigger] r@[i])@ == self@.debug.entries[i],
    {
        self.debug.get_entries()
    }

    /// Clear the diagnostics ring.
    pub fn clear_debug_buffer(&mut self)
        ensures
            final(self)@ == (ScreenModel {
                debug: DebugModel {
                    entries: Seq::empty(),
                    dropped: 0,
                    capacity: old(self)@.debug.capacity,
                },
                ..old(self)@
            }),
    {
        self.debug.clear();
        proof {
            assert(self@ =~~= (ScreenModel {
                debug: DebugModel {
                    entries: Seq::empty(),
                    dropped: 0,
                    capacity: old(self)@.debug.capacity,
                },
                ..old(self)@
            }));
        }
    }

    /// How many diagnostics entries were dropped for capacity.
    pub fn get_debug_dropped(&self) -> (r: usize)
        ensures
            r as nat == self@.debug.dropped,
    {
        self.debug.get_dropped()
    }

    /// Print one character at the cursor, honoring a delayed wrap.
    fn print(&mut self, c: char)
        requires
            wf(old(self)@),
        ensures
            final(self)@ == spec_print(old(self)@, c),
            wf(final(self)@),
    {
        proof {
            crate::grid::rows_wf_from_grid_wf(
                self.cells@,
                old(self)@.rows as nat,
                old(self)@.cols as nat,
            );
        }
        if self.pending_wrap {
            self.pending_wrap = false;
            self.cursor_col = 0;
            if self.cursor_row + 1 == self.rows {
                let cols = self.cols;
                grid_delete_lines(&mut self.cells, cols, 0, 1);
            } else {
                self.cursor_row = self.cursor_row + 1;
            }
        }
        let ghost m1 = spec_wrap_step(old(self)@);
        proof {
            assert(self@ =~~= m1);
            assert(wf(m1));
            crate::grid::rows_wf_from_grid_wf(self.cells@, m1.rows as nat, m1.cols as nat);
        }
        let cell = self.pen.paint(c);
        let mut row = copy_row(&self.cells[self.cursor_row]);
        row.set(self.cursor_col, cell);
        self.cells.set(self.cursor_row, row);
        self.last_char = c;
        if self.cursor_col + 1 == self.cols {
            self.pending_wrap = true;
        } else {
            self.cursor_col = self.cursor_col + 1;
        }
        proof {
            assert(self@.grid =~~= spec_put_char(m1, c).grid);
            assert(self@ =~~= spec_put_char(m1, c));
        }
    }

    /// Handle one C0 control byte.
    fn execute_ctrl(&mut self, b: u8)
        requires
            wf(old(self)@),
        ensures
            final(self)@ == spec_execute(old(self)@, b),
            wf(final(self)@),
    {
        proof {
            crate::grid::rows_wf_from_grid_wf(
                self.cells@,
                old(self)@.rows as nat,
                old(self)@.cols as nat,
            );
        }
        if b == 0x0A {
            self.pending_wrap = false;
            self.cursor_col = 0;
            if self.cursor_row + 1 == self.rows {
                let cols = self.cols;
                grid_delete_lines(&mut self.cells, cols, 0, 1);
            } else {
                self.cursor_row = self.cursor_row + 1;
            }
        } else if b == 0x0D {
            self.cursor_col = 0;
            self.pending_wrap = false;
        } else if b == 0x09 {
            let t = (self.cursor_col / 8 + 1) * 8;
            self.cursor_col = if t >= self.cols {
                self.cols - 1
            } else {
                t
            };
        } else if b == 0x08 {
            if self.cursor_col > 0 {
                self.cursor_col = self.cursor_col - 1;
            }
            self.pending_wrap = false;
        }
        proof {
            assert(self@ =~~= spec_execute(old(self)@, b));
        }
    }

    /// Resize the grid, keeping top-aligned content and clamping the
    /// cursor.
    pub fn resize(&mut self, rows: usize, cols: usize)
        requires
            wf(old(self)@),
            1 <= rows <= 0xFFFF,
            1 <= cols <= 0xFFFF,
        ensures
            final(self)@ == spec_resize(old(self)@, rows as int, cols as int),
            wf(final(self)@),
    {
        proof {
            crate::grid::rows_wf_from_grid_wf(
                self.cells@,
                old(self)@.rows as nat,
                old(self)@.cols as nat,
            );
        }
        let ghost target = spec_resize(old(self)@, rows as int, cols as int);
        let mut new_cells: Vec<Vec<Cell>> = Vec::new();
        let mut i: usize = 0;
        while i < rows
            invariant
                i <= rows,
                wf(old(self)@),
                self == old(self),
                crate::grid::rows_wf(self.cells@, old(self)@.cols as nat),
                self.cells@.len() == old(self)@.rows,
                target == spec_resize(old(self)@, rows as int, cols as int),
                new_cells@.len() == i,
                forall|k: int|
                    0 <= k < i ==> (#[trigger] new_cells@[k])@ == target.grid[k],
            decreases rows - i,
        {
            let mut row: Vec<Cell> = Vec::new();
            let mut j: usize = 0;
            while j < cols
                invariant
                    j <= cols,
                    i < rows,
                    wf(old(self)@),
                    self == old(self),
                    crate::grid::rows_wf(self.cells@, old(self)@.cols as nat),
                    self.cells@.len() == old(self)@.rows,
                    target == spec_resize(old(self)@, rows as int, cols as int),
                    row@.len() == j,
                    forall|k: int| 0 <= k < j ==> row@[k] == target.grid[i as int][k],
                decreases cols - j,
            {
                let c: Cell = if i < self.rows && j < self.cols {
                    self.cells[i][j]
                } else {
                    Cell::blank()
                };
                row.push(c);
                j += 1;
            }
            proof {
                assert(row@ =~= target.grid[i as int]);
            }
            new_cells.push(row);
            i += 1;
        }
        self.cells = new_cells;
        self.rows = rows;
        self.cols = cols;
        if self.cursor_row > rows - 1 {
            self.cursor_row = rows - 1;
        }
        if self.cursor_col > cols - 1 {
            self.cursor_col = cols - 1;
        }
        self.pending_wrap = false;
        proof {
            assert(self@ =~~= target);
        }
    }

    /// Reset the collected parser data and enter `st`.
    fn parser_start(&mut self, st: PState, need: u8, cp: u32)
        ensures
            final(self)@ == parser_start_state(old(self)@, st, need as int, cp),
    {
        self.pstate = st;
        self.params.clear();
        self.cur_param = 0;
        self.cur_started = false;
        self.inters.clear();
        self.utf8_need = need;
        self.utf8_cp = cp;
        proof {
            assert(self@ =~~= parser_start_state(old(self)@, st, need as int, cp));
        }
    }

    /// Enqueue the all-well reply to a device status query.
    fn push_reply_dsr_ok(&mut self)
        ensures
            final(self)@ == (ScreenModel {
                replies: old(self)@.replies.push(spec_dsr_ok_reply()),
                ..old(self)@
            }),
    {
        let mut v: Vec<u8> = Vec::new();
        v.push(0x1B);
        v.push(0x5B);
        v.push(0x30);
        v.push(0x6E);
        proof {
            assert(v@ =~= spec_dsr_ok_reply());
        }
        self.pending_responses.push(v);
        proof {
            assert(self@ =~~= (ScreenModel {
                replies: old(self)@.replies.push(spec_dsr_ok_reply()),
                ..old(self)@
            }));
        }
    }

    /// Enqueue the cursor position report, one-indexed.
    fn push_reply_cpr(&mut self)
        requires
            wf(old(self)@),
        ensures
            final(self)@ == (ScreenModel {
                replies: old(self)@.replies.push(
                    spec_cpr_reply(old(self)@.cur_row + 1, old(self)@.cur_col + 1),
                ),
                ..old(self)@
            }),
    {
        let mut v: Vec<u8> = Vec::new();
        v.push(0x1B);
        v.push(0x5B);
        push_dec_bytes(&mut v, self.cursor_row as u32 + 1);
        v.push(0x3B);
        push_dec_bytes(&mut v, self.cursor_col as u32 + 1);
        v.push(0x52);
        proof {
            assert(v@ =~= spec_cpr_reply(old(self)@.cur_row + 1, old(self)@.cur_col + 1));
        }
        self.pending_responses.push(v);
        proof {
            assert(self@ =~~= (ScreenModel {
                replies: old(self)@.replies.push(
                    spec_cpr_reply(old(self)@.cur_row + 1, old(self)@.cur_col + 1),
                ),
                ..old(self)@
            }));
        }
    }

    /// Enqueue the primary device attributes reply.
    fn push_reply_da(&mut self)
        ensures
            final(self)@ == (ScreenModel {
                replies: old(self)@.replies.push(spec_da_reply()),
                ..old(self)@
            }),
    {
        let mut v: Vec<u8> = Vec::new();
        v.push(0x1B);
        v.push(0x5B);
        v.push(0x3F);
        v.push(0x31);
        v.push(0x3B);
        v.push(0x32);
        v.push(0x63);
        proof {
            assert(v@ =~= spec_da_reply());
        }
        self.pending_responses.push(v);
        proof {
            assert(self@ =~~= (ScreenModel {
                replies: old(self)@.replies.push(spec_da_reply()),
                ..old(self)@
            }));
        }
    }

    /// Record an unrecognized control sequence in the diagnostics ring.
    fn debug_csi(&mut self, action: u8, ps: &Vec<u16>, is: &Vec<u8>)
        ensures
            final(self)@ == (ScreenModel {
                debug: spec_debug_push(
                    old(self)@.debug,
                    spec_csi_debug_seq(is@, ps@, action),
                    spec_csi_debug_raw(is@, ps@, action),
                ),
                ..old(self)@
            }),
    {
        let mut seqv: Vec<char> = Vec::new();
        seqv.push('\\');
        seqv.push('e');
        seqv.push('[');
        let ghost head: Seq<char> = seq!['\\', 'e', '['];
        proof {
            assert(seqv@ =~= head + spec_ascii_chars(is@.subrange(0, 0)));
        }
        let mut k: usize = 0;
        while k < is.len()
            invariant
                k <= is@.len(),
                head == seq!['\\', 'e', '['],
                seqv@ == head + spec_ascii_chars(is@.subrange(0, k as int)),
            decreases is@.len() - k,
        {
            seqv.push(crate::text::byte_char(is[k]));
            k += 1;
            proof {
                assert(spec_ascii_chars(is@.subrange(0, k as int)) =~= spec_ascii_chars(
                    is@.subrange(0, k - 1),
                ).push(spec_ascii(is@[k - 1])));
                assert(seqv@ =~= head + spec_ascii_chars(is@.subrange(0, k as int)));
            }
        }
        proof {
            assert(is@.subrange(0, is@.len() as int) =~= is@);
        }
        let ghost head2: Seq<char> = head + spec_ascii_chars(is@);
        let mut j: usize = 0;
        while j < ps.len()
            invariant
                j <= ps@.len(),
                head2 == seq!['\\', 'e', '['] + spec_ascii_chars(is@),
                seqv@ == head2 + spec_params_chars_upto(ps@, j as int),
            decreases ps@.len() - j,
        {
            if j > 0 {
                seqv.push(';');
            }
            push_dec(&mut seqv, ps[j]);
            j += 1;
            proof {
                assert(seqv@ =~= head2 + spec_params_chars_upto(ps@, j as int));
            }
        }
        seqv.push(crate::text::byte_char(action));
        let sequence = chars_to_string(&seqv);
        proof {
            assert(sequence@ =~= spec_csi_debug_seq(is@, ps@, action));
        }

        let mut raw: Vec<u8> = Vec::new();
        raw.push(0x1B);
        raw.push(0x5B);
        let mut k2: usize = 0;
        while k2 < is.len()
            invariant
                k2 <= is@.len(),
                raw@ == seq![0x1Bu8, 0x5Bu8] + is@.subrange(0, k2 as int),
            decreases is@.len() - k2,
        {
            raw.push(is[k2]);
            k2 += 1;
            proof {
                assert(raw@ =~= seq![0x1Bu8, 0x5Bu8] + is@.subrange(0, k2 as int));
            }
        }
        proof {
            assert(is@.subrange(0, is@.len() as int) =~= is@);
        }
        let ghost rhead: Seq<u8> = seq![0x1Bu8, 0x5Bu8] + is@;
        let mut j2: usize = 0;
        while j2 < ps.len()
            invariant
                j2 <= ps@.len(),
                rhead == seq![0x1Bu8, 0x5Bu8] + is@,
                raw@ == rhead + spec_params_bytes_upto(ps@, j2 as int),
            decreases ps@.len() - j2,
        {
            if j2 > 0 {
                raw.push(0x3B);
            }
            push_dec_bytes(&mut raw, ps[j2] as u32);
            j2 += 1;
            proof {
                assert(raw@ =~= rhead + spec_params_bytes_upto(ps@, j2 as int));
            }
        }
        raw.push(action);
        proof {
            assert(raw@ =~= spec_csi_debug_raw(is@, ps@, action));
        }
        self.debug.push(sequence, raw.as_slice());
        proof {
            assert(self@ =~~= (ScreenModel {
                debug: spec_debug_push(
                    old(self)@.debug,
                    spec_csi_debug_seq(is@, ps@, action),
                    spec_csi_debug_raw(is@, ps@, action),
                ),
                ..old(self)@
            }));
        }
    }

    /// Record an unrecognized escape sequence in the diagnostics ring.
    fn debug_esc(&mut self, b: u8, is: &Vec<u8>)
        ensures
            final(self)@ == (ScreenModel {
                debug: spec_debug_push(
                    old(self)@.debug,
                    spec_esc_debug_seq(is@, b),
                    spec_esc_debug_raw(is@, b),
                ),
                ..old(self)@
            }),
    {
        let mut seqv: Vec<char> = Vec::new();
        seqv.push('\\');
        seqv.push('e');
        let ghost head: Seq<char> = seq!['\\', 'e'];
        proof {
            assert(seqv@ =~= head + spec_ascii_chars(is@.subrange(0, 0)));
        }
        let mut k: usize = 0;
        while k < is.len()
            invariant
                k <= is@.len(),
                head == seq!['\\', 'e'],
                seqv@ == head + spec_ascii_chars(is@.subrange(0, k as int)),
            decreases is@.len() - k,
        {
            seqv.push(crate::text::byte_char(is[k]));
            k += 1;
            proof {
                assert(spec_ascii_chars(is@.subrange(0, k as int)) =~= spec_ascii_chars(
                    is@.subrange(0, k - 1),
                ).push(spec_ascii(is@[k - 1])));
                assert(seqv@ =~= head + spec_ascii_chars(is@.subrange(0, k as int)));
            }
        }
        proof {
            assert(is@.subrange(0, is@.len() as int) =~= is@);
        }
        seqv.push(crate::text::byte_char(b));
        let sequence = chars_to_string(&seqv);
        proof {
            assert(sequence@ =~= spec_esc_debug_seq(is@, b));
        }
        let mut raw: Vec<u8> = Vec::new();
        raw.push(0x1B);
        let mut k2: usize = 0;
        while k2 < is.len()
            invariant
                k2 <= is@.len(),
                raw@ == seq![0x1Bu8] + is@.subrange(0, k2 as int),
            decreases is@.len() - k2,
        {
            raw.push(is[k2]);
            k2 += 1;
            proof {
                assert(raw@ =~= seq![0x1Bu8] + is@.subrange(0, k2 as int));
            }
        }
        raw.push(b);
        proof {
            assert(is@.subrange(0, is@.len() as int) =~= is@);
            assert(raw@ =~= spec_esc_debug_raw(is@, b));
        }
        self.debug.push(sequence, raw.as_slice());
        proof {
            assert(self@ =~~= (ScreenModel {
                debug: spec_debug_push(
                    old(self)@.debug,
                    spec_esc_debug_seq(is@, b),
                    spec_esc_debug_raw(is@, b),
                ),
                ..old(self)@
            }));
        }
    }

    /// Dispatch one complete two-byte escape sequence.
    fn esc_dispatch(&mut self, b: u8, is: &Vec<u8>)
        ensures
            final(self)@ == spec_esc_dispatch(old(self)@, is@, b),
    {
        if b == 0x48 {
            // set tab stop: the stops are fixed, nothing to do
        } else {
            self.debug_esc(b, is);
        }
    }

    /// Fill cells `from` to `to` (exclusive) of the cursor line with
    /// blanks.
    fn op_row_fill(&mut self, from: usize, to: usize)
        requires
            wf(old(self)@),
            to <= old(self)@.cols,
        ensures
            final(self)@ == (ScreenModel {
                grid: old(self)@.grid.update(
                    old(self)@.cur_row,
                    spec_row_fill(
                        old(self)@.grid[old(self)@.cur_row],
                        from as int,
                        to as int,
                        Cell::spec_blank(),
                    ),
                ),
                ..old(self)@
            }),
            wf(final(self)@),
    {
        proof {
            crate::grid::rows_wf_from_grid_wf(
                self.cells@,
                old(self)@.rows as nat,
                old(self)@.cols as nat,
            );
        }
        let mut row = copy_row(&self.cells[self.cursor_row]);
        row_fill(&mut row, from, to, Cell::blank());
        self.cells.set(self.cursor_row, row);
        proof {
            assert(self@.grid =~~= (ScreenModel {
                grid: old(self)@.grid.update(
                    old(self)@.cur_row,
                    spec_row_fill(
                        old(self)@.grid[old(self)@.cur_row],
                        from as int,
                        to as int,
                        Cell::spec_blank(),
                    ),
                ),
                ..old(self)@
            }).grid);
            assert(self@ =~~= (ScreenModel {
                grid: old(self)@.grid.update(
                    old(self)@.cur_row,
                    spec_row_fill(
                        old(self)@.grid[old(self)@.cur_row],
                        from as int,
                        to as int,
                        Cell::spec_blank(),
                    ),
                ),
                ..old(self)@
            }));
        }
    }

    /// Delete `n` cells at the cursor, the rest of the line shifting left.
    fn op_row_delete(&mut self, n: usize)
        requires
            wf(old(self)@),
            n <= 0xFFFF,
        ensures
            final(self)@ == (ScreenModel {
                grid: old(self)@.grid.update(
                    old(self)@.cur_row,
                    spec_row_delete(old(self)@.grid[old(self)@.cur_row], old(self)@.cur_col, n as int),
                ),
                ..old(self)@
            }),
            wf(final(self)@),
    {
        proof {
            crate::grid::rows_wf_from_grid_wf(
                self.cells@,
                old(self)@.rows as nat,
                old(self)@.cols as nat,
            );
        }
        let mut row = copy_row(&self.cells[self.cursor_row]);
        row_delete(&mut row, self.cursor_col, n);
        self.cells.set(self.cursor_row, row);
        proof {
            assert(self@.grid =~~= old(self)@.grid.update(
                old(self)@.cur_row,
                spec_row_delete(old(self)@.grid[old(self)@.cur_row], old(self)@.cur_col, n as int),
            ));
            assert(self@ =~~= (ScreenModel {
                grid: old(self)@.grid.update(
                    old(self)@.cur_row,
                    spec_row_delete(
                        old(self)@.grid[old(self)@.cur_row],
                        old(self)@.cur_col,
                        n as int,
                    ),
                ),
                ..old(self)@
            }));
        }
    }

    /// Insert `n` blank cells at the cursor, the rest of the line shifting
    /// right.
    fn op_row_insert(&mut self, n: usize)
        requires
            wf(old(self)@),
        ensures
            final(self)@ == (ScreenModel {
                grid: old(self)@.grid.update(
                    old(self)@.cur_row,
                    spec_row_insert(old(self)@.grid[old(self)@.cur_row], old(self)@.cur_col, n as int),
                ),
                ..old(self)@
            }),
            wf(final(self)@),
    {
        proof {
            crate::grid::rows_wf_from_grid_wf(
                self.cells@,
                old(self)@.rows as nat,
                old(self)@.cols as nat,
            );
        }
        let mut row = copy_row(&self.cells[self.cursor_row]);
        row_insert(&mut row, self.cursor_col, n);
        self.cells.set(self.cursor_row, row);
        proof {
            assert(self@.grid =~~= old(self)@.grid.update(
                old(self)@.cur_row,
                spec_row_insert(old(self)@.grid[old(self)@.cur_row], old(self)@.cur_col, n as int),
            ));
            assert(self@ =~~= (ScreenModel {
                grid: old(self)@.grid.update(
                    old(self)@.cur_row,
                    spec_row_insert(
                        old(self)@.grid[old(self)@.cur_row],
                        old(self)@.cur_col,
                        n as int,
                    ),
                ),
                ..old(self)@
            }));
        }
    }

    /// Erase from the cursor to the end of the screen.
    fn op_erase_below(&mut self)
        requires
            wf(old(self)@),
        ensures
            final(self)@ == (ScreenModel { grid: spec_erase_below(old(self)@), ..old(self)@ }),
            wf(final(self)@),
    {
        let cols = self.cols;
        let cc = self.cursor_col;
        self.op_row_fill(cc, cols);
        let mut r: usize = self.cursor_row + 1;
        while r < self.rows
            invariant
                old(self)@.cur_row + 1 <= r <= old(self)@.rows,
                wf(old(self)@),
                wf(self@),
                self.rows == self@.rows,
                self.cols == self@.cols,
                (ScreenModel { grid: old(self)@.grid, ..self@ }) == old(self)@,
                self@.grid.len() == old(self)@.grid.len(),
                forall|i: int|
                    0 <= i < self@.grid.len() ==> #[trigger] self@.grid[i] == (
                    if i < old(self)@.cur_row {
                        old(self)@.grid[i]
                    } else if i == old(self)@.cur_row {
                        spec_row_fill(
                            old(self)@.grid[i],
                            old(self)@.cur_col,
                            old(self)@.cols,
                            Cell::spec_blank(),
                        )
                    } else if i < r {
                        spec_blank_row(old(self)@.cols as nat)
                    } else {
                        old(self)@.grid[i]
                    }),
            decreases self@.rows - r,
        {
            let cols2 = self.cols;
            let row = blank_row(cols2);
            let ghost prev = self@;
            self.cells.set(r, row);
            r += 1;
            proof {
                assert forall|i: int| 0 <= i < self@.grid.len() implies #[trigger] self@.grid[i]
                    == (if i < old(self)@.cur_row {
                    old(self)@.grid[i]
                } else if i == old(self)@.cur_row {
                    spec_row_fill(
                        old(self)@.grid[i],
                        old(self)@.cur_col,
                        old(self)@.cols,
                        Cell::spec_blank(),
                    )
                } else if i < r {
                    spec_blank_row(old(self)@.cols as nat)
                } else {
                    old(self)@.grid[i]
                }) by {
                    assert(self@.grid[i] == self.cells@[i]@);
                    if i == r - 1 {
                        assert(self.cells@[i]@ == spec_blank_row(old(self)@.cols as nat));
                    } else {
                        assert(self@.grid[i] == prev.grid[i]);
                    }
                }
                assert(wf(self@));
            }
        }
        proof {
            assert(self@.grid =~= spec_erase_below(old(self)@));
            assert(self@ =~~= (ScreenModel { grid: spec_erase_below(old(self)@), ..old(self)@ }));
        }
    }

    /// Erase from the start of the screen to the cursor.
    fn op_erase_above(&mut self)
        requires
            wf(old(self)@),
        ensures
            final(self)@ == (ScreenModel { grid: spec_erase_above(old(self)@), ..old(self)@ }),
            wf(final(self)@),
    {
        let cc = self.cursor_col;
        self.op_row_fill(0, cc + 1);
        let mut r: usize = 0;
        while r < self.cursor_row
            invariant
                0 <= r <= old(self)@.cur_row,
                wf(old(self)@),
                wf(self@),
                self.cursor_row == self@.cur_row,
                self.cols == self@.cols,
                (ScreenModel { grid: old(self)@.grid, ..self@ }) == old(self)@,
                self@.grid.len() == old(self)@.grid.len(),
                forall|i: int|
                    0 <= i < self@.grid.len() ==> #[trigger] self@.grid[i] == (
                    if i < r {
                        spec_blank_row(old(self)@.cols as nat)
                    } else if i == old(self)@.cur_row {
                        spec_row_fill(
                            old(self)@.grid[i],
                            0,
                            old(self)@.cur_col + 1,
                            Cell::spec_blank(),
                        )
                    } else {
                        old(self)@.grid[i]
                    }),
            decreases self@.cur_row - r,
        {
            let cols2 = self.cols;
            let row = blank_row(cols2);
            let ghost prev = self@;
            self.cells.set(r, row);
            r += 1;
            proof {
                assert forall|i: int| 0 <= i < self@.grid.len() implies #[trigger] self@.grid[i]
                    == (if i < r {
                    spec_blank_row(old(self)@.cols as nat)
                } else if i == old(self)@.cur_row {
                    spec_row_fill(
                        old(self)@.grid[i],
                        0,
                        old(self)@.cur_col + 1,
                        Cell::spec_blank(),
                    )
                } else {
                    old(self)@.grid[i]
                }) by {
                    assert(self@.grid[i] == self.cells@[i]@);
                    if i == r - 1 {
                        assert(self.cells@[i]@ == spec_blank_row(old(self)@.cols as nat));
                    } else {
                        assert(self@.grid[i] == prev.grid[i]);
                    }
                }
                assert(wf(self@));
            }
        }
        proof {
            assert(self@.grid =~= spec_erase_above(old(self)@));
            assert(self@ =~~= (ScreenModel { grid: spec_erase_above(old(self)@), ..old(self)@ }));
        }
    }

    /// The pen after one Select Graphic Rendition parameter list.
    fn sgr_apply(pen: Pen, ps: &Vec<u16>) -> (r: Pen)
        ensures
            r == spec_sgr(pen, ps@),
    {
        if ps.len() == 0 {
            return Pen::plain();
        }
        let mut cur = pen;
        let mut i: usize = 0;
        while i < ps.len()
            invariant
                i <= ps@.len(),
                spec_sgr_from(pen, ps@, 0) == spec_sgr_from(cur, ps@, i as int),
            decreases ps@.len() - i,
        {
            let stepped = Screen::sgr_step(cur, ps, i);
            cur = stepped.0;
            i = stepped.1;
        }
        cur
    }

    /// One simple Select Graphic Rendition code folded into the pen.
    fn sgr_simple(pen: Pen, p: u16) -> (r: Pen)
        ensures
            r == spec_sgr_simple(pen, p as int),
    {
        if p == 0 {
            Pen::plain()
        } else if p == 1 {
            Pen { attrs: crate::cell::Attrs { bold: true, ..pen.attrs }, ..pen }
        } else if p == 2 {
            Pen { attrs: crate::cell::Attrs { dim: true, ..pen.attrs }, ..pen }
        } else if p == 3 {
            Pen { attrs: crate::cell::Attrs { italic: true, ..pen.attrs }, ..pen }
        } else if p == 4 {
            Pen { attrs: crate::cell::Attrs { underline: true, ..pen.attrs }, ..pen }
        } else if p == 7 {
            Pen { attrs: crate::cell::Attrs { inverse: true, ..pen.attrs }, ..pen }
        } else if p == 8 {
            Pen { attrs: crate::cell::Attrs { hidden: true, ..pen.attrs }, ..pen }
        } else if p == 9 {
            Pen { attrs: crate::cell::Attrs { strikeout: true, ..pen.attrs }, ..pen }
        } else if p == 22 {
            Pen { attrs: crate::cell::Attrs { bold: false, dim: false, ..pen.attrs }, ..pen }
        } else if p == 23 {
            Pen { attrs: crate::cell::Attrs { italic: false, ..pen.attrs }, ..pen }
        } else if p == 24 {
            Pen { attrs: crate::cell::Attrs { underline: false, ..pen.attrs }, ..pen }
        } else if p == 27 {
            Pen { attrs: crate::cell::Attrs { inverse: false, ..pen.attrs }, ..pen }
        } else if p == 28 {
            Pen { attrs: crate::cell::Attrs { hidden: false, ..pen.attrs }, ..pen }
        } else if p == 29 {
            Pen { attrs: crate::cell::Attrs { strikeout: false, ..pen.attrs }, ..pen }
        } else if 30 <= p && p <= 37 {
            Pen { fg: crate::cell::Color::Ansi((p - 30) as u8), ..pen }
        } else if p == 39 {
            Pen { fg: crate::cell::Color::Default, ..pen }
        } else if 40 <= p && p <= 47 {
            Pen { bg: crate::cell::Color::Ansi((p - 40) as u8), ..pen }
        } else if p == 49 {
            Pen { bg: crate::cell::Color::Default, ..pen }
        } else if 90 <= p && p <= 97 {
            Pen { fg: crate::cell::Color::Ansi((p - 90 + 8) as u8), ..pen }
        } else if 100 <= p && p <= 107 {
            Pen { bg: crate::cell::Color::Ansi((p - 100 + 8) as u8), ..pen }
        } else {
            pen
        }
    }

    /// One Select Graphic Rendition parameter folded into the pen; the
    /// position moves past the codes consumed.
    fn sgr_step(cur: Pen, ps: &Vec<u16>, i: usize) -> (r: (Pen, usize))
        requires
            i < ps@.len(),
            ps@.len() <= usize::MAX,
        ensures
            spec_sgr_from(cur, ps@, i as int) == spec_sgr_from(r.0, ps@, r.1 as int),
            i < r.1 <= ps@.len(),
    {
        let p = ps[i];
        if p == 38 || p == 48 {
            if ps.len() - i > 2 && ps[i + 1] == 5 && ps[i + 2] <= 255 {
                let c = crate::cell::Color::Indexed(ps[i + 2] as u8);
                if p == 38 {
                    (Pen { fg: c, ..cur }, i + 3)
                } else {
                    (Pen { bg: c, ..cur }, i + 3)
                }
            } else if ps.len() - i > 4 && ps[i + 1] == 2 && ps[i + 2] <= 255 && ps[i + 3] <= 255
                && ps[i + 4] <= 255 {
                let c = crate::cell::Color::Rgb(ps[i + 2] as u8, ps[i + 3] as u8, ps[i + 4] as u8);
                if p == 38 {
                    (Pen { fg: c, ..cur }, i + 5)
                } else {
                    (Pen { bg: c, ..cur }, i + 5)
                }
            } else {
                proof {
                    assert(spec_sgr_from(cur, ps@, i as int) == cur);
                    assert(spec_sgr_from(cur, ps@, ps@.len() as int) == cur);
                }
                (cur, ps.len())
            }
        } else {
            (Screen::sgr_simple(cur, p), i + 1)
        }
    }

    /// Dispatch one complete control sequence.
    #[verifier::rlimit(60)]
    fn csi_apply(&mut self, action: u8, ps: &Vec<u16>, is: &Vec<u8>)
        requires
            wf(old(self)@),
        ensures
            final(self)@ == spec_csi_apply(old(self)@, action, ps@, is@),
            wf(final(self)@),
    {
        if action == 0x48 || action == 0x66 {
            let r = param_pos(ps, 0) as usize;
            let c = param_pos(ps, 1) as usize;
            self.cursor_row = if r > self.rows - 1 {
                self.rows - 1
            } else {
                r
            };
            self.cursor_col = if c > self.cols - 1 {
                self.cols - 1
            } else {
                c
            };
            self.pending_wrap = false;
            proof {
                reveal(spec_csi_apply);
                assert(self@ =~~= spec_csi_apply(old(self)@, action, ps@, is@));
            }
        } else if action == 0x41 {
            let n = param_count(ps) as usize;
            self.cursor_row = self.cursor_row.saturating_sub(n);
            self.pending_wrap = false;
            proof {
                reveal(spec_csi_apply);
                assert(self@ =~~= spec_csi_apply(old(self)@, action, ps@, is@));
            }
        } else if action == 0x42 {
            let n = param_count(ps) as usize;
            let t = self.cursor_row + n;
            self.cursor_row = if t > self.rows - 1 {
                self.rows - 1
            } else {
                t
            };
            self.pending_wrap = false;
            proof {
                reveal(spec_csi_apply);
                assert(self@ =~~= spec_csi_apply(old(self)@, action, ps@, is@));
            }
        } else if action == 0x43 {
            let n = param_count(ps) as usize;
            let t = self.cursor_col + n;
            self.cursor_col = if t > self.cols - 1 {
                self.cols - 1
            } else {
                t
            };
            self.pending_wrap = false;
            proof {
                reveal(spec_csi_apply);
                assert(self@ =~~= spec_csi_apply(old(self)@, action, ps@, is@));
            }
        } else if action == 0x44 {
            let n = param_count(ps) as usize;
            self.cursor_col = self.cursor_col.saturating_sub(n);
            self.pending_wrap = false;
            proof {
                reveal(spec_csi_apply);
                assert(self@ =~~= spec_csi_apply(old(self)@, action, ps@, is@));
            }
        } else if action == 0x47 {
            let c = param_pos(ps, 0) as usize;
            self.cursor_col = if c > self.cols - 1 {
                self.cols - 1
            } else {
                c
            };
            self.pending_wrap = false;
            proof {
                reveal(spec_csi_apply);
                assert(self@ =~~= spec_csi_apply(old(self)@, action, ps@, is@));
            }
        } else if action == 0x64 {
            let r = param_pos(ps, 0) as usize;
            self.cursor_row = if r > self.rows - 1 {
                self.rows - 1
            } else {
                r
            };
            self.pending_wrap = false;
            proof {
                reveal(spec_csi_apply);
                assert(self@ =~~= spec_csi_apply(old(self)@, action, ps@, is@));
            }
        } else if action == 0x4A {
            let mode = param_or(ps, 0, 0);
            if mode == 0 {
                self.op_erase_below();
            } else if mode == 1 {
                self.op_erase_above();
            } else if mode == 2 {
                let cols = self.cols;
                proof {
                    crate::grid::rows_wf_from_grid_wf(
                        self.cells@,
                        old(self)@.rows as nat,
                        old(self)@.cols as nat,
                    );
                }
                grid_clear(&mut self.cells, cols);
                self.cursor_row = 0;
                self.cursor_col = 0;
                self.pending_wrap = false;
            }
            proof {
                reveal(spec_csi_apply);
                assert(self@ =~~= spec_csi_apply(old(self)@, action, ps@, is@));
            }
        } else if action == 0x4B {
            let mode = param_or(ps, 0, 0);
            let cols = self.cols;
            let cc = self.cursor_col;
            if mode == 0 {
                self.op_row_fill(cc, cols);
            } else if mode == 1 {
                self.op_row_fill(0, cc + 1);
            } else if mode == 2 {
                self.op_row_fill(0, cols);
            }
            proof {
                reveal(spec_csi_apply);
                assert(self@ =~~= spec_csi_apply(old(self)@, action, ps@, is@));
            }
        } else if action == 0x4C {
            let n = param_count(ps) as usize;
            let cols = self.cols;
            let at = self.cursor_row;
            proof {
                crate::grid::rows_wf_from_grid_wf(
                    self.cells@,
                    old(self)@.rows as nat,
                    old(self)@.cols as nat,
                );
            }
            grid_insert_lines(&mut self.cells, cols, at, n);
            proof {
                reveal(spec_csi_apply);
                assert(self@ =~~= spec_csi_apply(old(self)@, action, ps@, is@));
            }
        } else if action == 0x4D {
            let n = param_count(ps) as usize;
            let cols = self.cols;
            let at = self.cursor_row;
            proof {
                crate::grid::rows_wf_from_grid_wf(
                    self.cells@,
                    old(self)@.rows as nat,
                    old(self)@.cols as nat,
                );
            }
            grid_delete_lines(&mut self.cells, cols, at, n);
            proof {
                reveal(spec_csi_apply);
                assert(self@ =~~= spec_csi_apply(old(self)@, action, ps@, is@));
            }
        } else if action == 0x50 {
            let n = param_count(ps) as usize;
            self.op_row_delete(n);
            proof {
                reveal(spec_csi_apply);
                assert(self@ =~~= spec_csi_apply(old(self)@, action, ps@, is@));
            }
        } else if action == 0x40 {
            let n = param_count(ps) as usize;
            self.op_row_insert(n);
            proof {
                reveal(spec_csi_apply);
                assert(self@ =~~= spec_csi_apply(old(self)@, action, ps@, is@));
            }
        } else if action == 0x58 {
            let n = param_count(ps) as usize;
            let cc = self.cursor_col;
            let cols = self.cols;
            let to = if cc + n > cols {
                cols
            } else {
                cc + n
            };
            self.op_row_fill(cc, to);
            proof {
                reveal(spec_csi_apply);
                assert(self@ =~~= spec_csi_apply(old(self)@, action, ps@, is@));
            }
        } else if action == 0x53 {
            let n = param_count(ps) as usize;
            let cols = self.cols;
            proof {
                crate::grid::rows_wf_from_grid_wf(
                    self.cells@,
                    old(self)@.rows as nat,
                    old(self)@.cols as nat,
                );
            }
            grid_delete_lines(&mut self.cells, cols, 0, n);
            proof {
                reveal(spec_csi_apply);
                assert(self@ =~~= spec_csi_apply(old(self)@, action, ps@, is@));
            }
        } else if action == 0x54 {
            let n = param_count(ps) as usize;
            let cols = self.cols;
            proof {
                crate::grid::rows_wf_from_grid_wf(
                    self.cells@,
                    old(self)@.rows as nat,
                    old(self)@.cols as nat,
                );
            }
            grid_insert_lines(&mut self.cells, cols, 0, n);
            proof {
                reveal(spec_csi_apply);
                assert(self@ =~~= spec_csi_apply(old(self)@, action, ps@, is@));
            }
        } else if action == 0x49 {
            let n = param_count(ps) as usize;
            let t = (self.cursor_col / 8 + n) * 8;
            self.cursor_col = if t > self.cols - 1 {
                self.cols - 1
            } else {
                t
            };
            proof {
                reveal(spec_csi_apply);
                assert(self@ =~~= spec_csi_apply(old(self)@, action, ps@, is@));
            }
        } else if action == 0x5A {
            if self.cursor_col > 0 {
                self.cursor_col = ((self.cursor_col - 1) / 8) * 8;
            }
            proof {
                reveal(spec_csi_apply);
                assert(self@ =~~= spec_csi_apply(old(self)@, action, ps@, is@));
            }
        } else if action == 0x62 {
            let n = param_count(ps);
            let c = self.last_char;
            let mut k: u16 = 0;
            while k < n
                invariant
                    k <= n,
                    wf(self@),
                    c == old(self)@.last_char,
                    self@ == spec_print_n(old(self)@, c, k as int),
                decreases n - k,
            {
                self.print(c);
                k += 1;
                proof {
                    lemma_print_n_snoc(old(self)@, c, k - 1);
                }
            }
            proof {
                reveal(spec_csi_apply);
                assert(self@ =~~= spec_csi_apply(old(self)@, action, ps@, is@));
            }
        } else if action == 0x67 {
            // clear tab stop: the stops are fixed, nothing to do
            proof {
                reveal(spec_csi_apply);
                assert(self@ =~~= spec_csi_apply(old(self)@, action, ps@, is@));
            }
        } else if action == 0x6D {
            self.pen = Screen::sgr_apply(self.pen, ps);
            proof {
                reveal(spec_csi_apply);
                assert(self@ =~~= spec_csi_apply(old(self)@, action, ps@, is@));
            }
        } else if action == 0x6E {
            let mode = param_or(ps, 0, 0);
            if mode == 5 {
                self.push_reply_dsr_ok();
            } else if mode == 6 {
                self.push_reply_cpr();
            }
            proof {
                reveal(spec_csi_apply);
                assert(self@ =~~= spec_csi_apply(old(self)@, action, ps@, is@));
            }
        } else if action == 0x63 {
            if param_or(ps, 0, 0) == 0 {
                self.push_reply_da();
            }
            proof {
                reveal(spec_csi_apply);
                assert(self@ =~~= spec_csi_apply(old(self)@, action, ps@, is@));
            }
        } else {
            self.debug_csi(action, ps, is);
            proof {
                reveal(spec_csi_apply);
                assert(self@ =~~= spec_csi_apply(old(self)@, action, ps@, is@));
            }
        }
    }

    /// One byte in the ground state.
    fn step_ground(&mut self, b: u8)
        requires
            wf(old(self)@),
        ensures
            final(self)@ == spec_ground_step(old(self)@, b),
            wf(final(self)@),
    {
        if b == 0x1B {
            self.parser_start(PState::Escape, 0, 0);
        } else if b == 0x18 || b == 0x1A {
            // cancel and substitute: nothing open in the ground state
        } else if b < 0x20 {
            self.execute_ctrl(b);
        } else if b < 0x7F {
            let c = crate::text::byte_char(b);
            self.print(c);
        } else if b == 0x7F {
            // delete: ignored
        } else if 0xC0 <= b && b <= 0xDF {
            self.parser_start(PState::Utf8, 1, (b - 0xC0) as u32);
        } else if 0xE0 <= b && b <= 0xEF {
            self.parser_start(PState::Utf8, 2, (b - 0xE0) as u32);
        } else if 0xF0 <= b && b <= 0xF7 {
            self.parser_start(PState::Utf8, 3, (b - 0xF0) as u32);
        } else {
            // a stray continuation byte or an invalid lead byte: ignored
        }
        proof {
            assert(self@ =~~= spec_ground_step(old(self)@, b));
        }
    }

    /// One byte after the escape byte.
    fn step_escape(&mut self, b: u8)
        requires
            wf(old(self)@),
        ensures
            final(self)@ == spec_escape_step(old(self)@, b),
            wf(final(self)@),
    {
        if b == 0x5B {
            self.parser_start(PState::Csi, 0, 0);
        } else if b == 0x5D {
            self.parser_start(PState::Osc, 0, 0);
        } else if b == 0x50 || b == 0x58 || b == 0x5E || b == 0x5F {
            self.parser_start(PState::Dcs, 0, 0);
        } else if 0x20 <= b && b <= 0x2F {
            self.inters.push(b);
            self.pstate = PState::EscapeInter;
        } else if 0x30 <= b && b <= 0x7E {
            let mut is: Vec<u8> = Vec::new();
            core::mem::swap(&mut self.inters, &mut is);
            self.parser_start(PState::Ground, 0, 0);
            self.esc_dispatch(b, &is);
        } else if b == 0x1B {
            self.parser_start(PState::Escape, 0, 0);
        } else if b == 0x18 || b == 0x1A {
            self.parser_start(PState::Ground, 0, 0);
        } else if b < 0x20 {
            self.execute_ctrl(b);
        } else if b == 0x7F {
            // delete: ignored
        } else {
            self.parser_start(PState::Ground, 0, 0);
        }
        proof {
            assert(self@ =~~= spec_escape_step(old(self)@, b));
        }
    }

    /// One byte while collecting escape intermediates.
    fn step_escape_inter(&mut self, b: u8)
        requires
            wf(old(self)@),
        ensures
            final(self)@ == spec_escape_inter_step(old(self)@, b),
            wf(final(self)@),
    {
        if 0x20 <= b && b <= 0x2F {
            self.inters.push(b);
        } else if 0x30 <= b && b <= 0x7E {
            let mut is: Vec<u8> = Vec::new();
            core::mem::swap(&mut self.inters, &mut is);
            self.parser_start(PState::Ground, 0, 0);
            self.esc_dispatch(b, &is);
        } else if b == 0x1B {
            self.parser_start(PState::Escape, 0, 0);
        } else if b == 0x18 || b == 0x1A {
            self.parser_start(PState::Ground, 0, 0);
        } else if b < 0x20 {
            self.execute_ctrl(b);
        } else if b == 0x7F {
            // delete: ignored
        } else {
            self.parser_start(PState::Ground, 0, 0);
        }
        proof {
            assert(self@ =~~= spec_escape_inter_step(old(self)@, b));
        }
    }

    /// One byte in a control sequence.
    fn step_csi(&mut self, b: u8)
        requires
            wf(old(self)@),
        ensures
            final(self)@ == spec_csi_step(old(self)@, b),
            wf(final(self)@),
    {
        if 0x30 <= b && b <= 0x39 {
            let nc: u32 = self.cur_param as u32 * 10 + (b - 0x30) as u32;
            self.cur_param = if nc > 0xFFFF {
                0xFFFF
            } else {
                nc as u16
            };
            self.cur_started = true;
        } else if b == 0x3B || b == 0x3A {
            let cp = self.cur_param;
            self.params.push(cp);
            self.cur_param = 0;
            self.cur_started = false;
        } else if 0x3C <= b && b <= 0x3F {
            self.inters.push(b);
        } else if 0x20 <= b && b <= 0x2F {
            self.inters.push(b);
        } else if 0x40 <= b && b <= 0x7E {
            if self.cur_started || self.params.len() > 0 {
                let cp = self.cur_param;
                self.params.push(cp);
            }
            let mut ps: Vec<u16> = Vec::new();
            core::mem::swap(&mut self.params, &mut ps);
            let mut is: Vec<u8> = Vec::new();
            core::mem::swap(&mut self.inters, &mut is);
            self.parser_start(PState::Ground, 0, 0);
            self.csi_apply(b, &ps, &is);
        } else if b == 0x1B {
            self.parser_start(PState::Escape, 0, 0);
        } else if b == 0x18 || b == 0x1A {
            self.parser_start(PState::Ground, 0, 0);
        } else if b < 0x20 {
            self.execute_ctrl(b);
        } else if b == 0x7F {
            // delete: ignored
        } else {
            self.parser_start(PState::Ground, 0, 0);
        }
        proof {
            assert(self@ =~~= spec_csi_step(old(self)@, b));
        }
    }

    /// One byte in an operating-system-command string.
    fn step_osc(&mut self, b: u8)
        requires
            wf(old(self)@),
        ensures
            final(self)@ == spec_osc_step(old(self)@, b),
            wf(final(self)@),
    {
        if b == 0x07 {
            self.parser_start(PState::Ground, 0, 0);
        } else if b == 0x1B {
            self.pstate = PState::OscEsc;
        }
        proof {
            assert(self@ =~~= spec_osc_step(old(self)@, b));
        }
    }

    /// The escape byte seen inside an operating-system-command string.
    fn step_osc_esc(&mut self, b: u8)
        requires
            wf(old(self)@),
        ensures
            final(self)@ == spec_osc_esc_step(old(self)@, b),
            wf(final(self)@),
    {
        if b == 0x5C {
            self.parser_start(PState::Ground, 0, 0);
        } else {
            self.parser_start(PState::Escape, 0, 0);
            self.step_escape(b);
        }
        proof {
            assert(self@ =~~= spec_osc_esc_step(old(self)@, b));
        }
    }

    /// One byte in a device-control (or similar) string.
    fn step_dcs(&mut self, b: u8)
        requires
            wf(old(self)@),
        ensures
            final(self)@ == spec_dcs_step(old(self)@, b),
            wf(final(self)@),
    {
        if b == 0x1B {
            self.pstate = PState::DcsEsc;
        }
        proof {
            assert(self@ =~~= spec_dcs_step(old(self)@, b));
        }
    }

    /// The escape byte seen inside a device-control string.
    fn step_dcs_esc(&mut self, b: u8)
        requires
            wf(old(self)@),
        ensures
            final(self)@ == spec_dcs_esc_step(old(self)@, b),
            wf(final(self)@),
    {
        if b == 0x5C {
            self.parser_start(PState::Ground, 0, 0);
        } else {
            self.parser_start(PState::Escape, 0, 0);
            self.step_escape(b);
        }
        proof {
            assert(self@ =~~= spec_dcs_esc_step(old(self)@, b));
        }
    }

    /// One byte while assembling a multi-byte character.
    fn step_utf8(&mut self, b: u8)
        requires
            wf(old(self)@),
            old(self)@.parser.state == PState::Utf8,
        ensures
            final(self)@ == spec_utf8_step(old(self)@, b),
            wf(final(self)@),
    {
        if 0x80 <= b && b <= 0xBF {
            let cp2: u32 = self.utf8_cp * 64 + (b - 0x80) as u32;
            if self.utf8_need > 1 {
                self.utf8_need = self.utf8_need - 1;
                self.utf8_cp = cp2;
            } else {
                self.parser_start(PState::Ground, 0, 0);
                match crate::text::char_from_u32(cp2) {
                    Some(c) => {
                        proof {
                            vstd::utf8::char_u32_cast(c, cp2);
                        }
                        self.print(c);
                    },
                    None => {
                        // not a scalar value: the bytes fall away
                    },
                }
            }
        } else {
            self.parser_start(PState::Ground, 0, 0);
            self.step_ground(b);
        }
        proof {
            assert(self@ =~~= spec_utf8_step(old(self)@, b));
        }
    }

    /// Consume one byte of the output stream.
    fn advance(&mut self, b: u8)
        requires
            wf(old(self)@),
        ensures
            final(self)@ == spec_step(old(self)@, b),
            wf(final(self)@),
    {
        match self.pstate {
            PState::Ground => self.step_ground(b),
            PState::Escape => self.step_escape(b),
            PState::EscapeInter => self.step_escape_inter(b),
            PState::Csi => self.step_csi(b),
            PState::Osc => self.step_osc(b),
            PState::OscEsc => self.step_osc_esc(b),
            PState::Dcs => self.step_dcs(b),
            PState::DcsEsc => self.step_dcs_esc(b),
            PState::Utf8 => self.step_utf8(b),
        }
    }

    /// Consume a slice of output bytes, one after the other.
    pub fn process_bytes(&mut self, bytes: &[u8])
        requires
            wf(old(self)@),
        ensures
            final(self)@ == spec_feed(old(self)@, bytes@),
            wf(final(self)@),
    {
        let n = bytes.len();
        let mut i: usize = 0;
        proof {
            assert(bytes@.subrange(0, 0) =~= Seq::<u8>::empty());
        }
        while i < n
            invariant
                i <= n,
                n == bytes@.len(),
                wf(self@),
                self@ == spec_feed(old(self)@, bytes@.subrange(0, i as int)),
            decreases n - i,
        {
            let b = bytes[i];
            self.advance(b);
            i += 1;
            proof {
                assert(bytes@.subrange(0, i as int) =~= bytes@.subrange(0, i - 1).push(b));
                lemma_feed_snoc(old(self)@, bytes@.subrange(0, i - 1), b);
            }
        }
        proof {
            assert(bytes@.subrange(0, n as int) =~= bytes@);
        }
    }
}

/// Whether a cell shows anything.
fn cell_visible(c: &Cell) -> (r: bool)
    ensures
        r == spec_cell_visible(*c),
{
    !(c.ch == ' ' && c.is_plain())
}

impl Screen {
    /// The grid as newline-separated lines, each right-trimmed of spaces.
    pub fn to_ascii(&self) -> (r: String)
        requires
            wf(self@),
        ensures
            r@ == spec_plain_render(self@.grid),
    {
        proof {
            crate::grid::rows_wf_from_grid_wf(self.cells@, self@.rows as nat, self@.cols as nat);
        }
        let mut out: Vec<char> = Vec::new();
        let mut rix: usize = 0;
        while rix < self.rows
            invariant
                rix <= self.rows,
                wf(self@),
                crate::grid::rows_wf(self.cells@, self@.cols as nat),
                self.rows == self@.rows,
                out@ == spec_plain_render_upto(self@.grid, rix as int),
            decreases self.rows - rix,
        {
            let ghost base = out@;
            let rowv = &self.cells[rix];
            proof {
                assert(rowv@ == self@.grid[rix as int]);
            }
            let mut end: usize = rowv.len();
            proof {
                assert(spec_row_chars(rowv@).take(end as int) =~= spec_row_chars(rowv@));
            }
            while end > 0 && rowv[end - 1].ch == ' '
                invariant
                    end <= rowv@.len(),
                    spec_trimmed_len(spec_row_chars(rowv@)) == spec_trimmed_len(
                        spec_row_chars(rowv@).take(end as int),
                    ),
                decreases end,
            {
                proof {
                    assert(spec_row_chars(rowv@).take(end as int).last() == rowv@[end - 1].ch);
                }
                end -= 1;
                proof {
                    assert(spec_row_chars(rowv@).take(end + 1).drop_last() =~= spec_row_chars(
                        rowv@,
                    ).take(end as int));
                }
            }
            proof {
                if end > 0 {
                    assert(spec_row_chars(rowv@).take(end as int).last() == rowv@[end - 1].ch);
                }
                assert(spec_trimmed_len(spec_row_chars(rowv@)) == end);
            }
            let mut j: usize = 0;
            while j < end
                invariant
                    j <= end,
                    end <= rowv@.len(),
                    out@ == base + spec_row_chars(rowv@).subrange(0, j as int),
                decreases end - j,
            {
                out.push(rowv[j].ch);
                j += 1;
                proof {
                    assert(out@ =~= base + spec_row_chars(rowv@).subrange(0, j as int));
                }
            }
            proof {
                assert(spec_row_chars(rowv@).subrange(0, end as int) =~= spec_plain_line(rowv@));
            }
            out.push('\n');
            rix += 1;
            proof {
                assert(out@ =~= spec_plain_render_upto(self@.grid, rix - 1) + spec_plain_line(
                    self@.grid[rix - 1],
                ) + seq!['\n']);
            }
        }
        chars_to_string(&out)
    }

    /// The grid as plain text; the primary read-out.
    pub fn get_screen_content(&self) -> (r: String)
        requires
            wf(self@),
        ensures
            r@ == spec_plain_render(self@.grid),
    {
        self.to_ascii()
    }

    /// The grid with minimal attribute sequences re-emitted, so that the
    /// lines re-rendered on any terminal reproduce the visible colors and
    /// flags.
    pub fn get_screen_content_ansi(&self) -> (r: String)
        requires
            wf(self@),
        ensures
            r@ == spec_attr_render(self@.grid),
    {
        proof {
            crate::grid::rows_wf_from_grid_wf(self.cells@, self@.rows as nat, self@.cols as nat);
        }
        let mut out: Vec<char> = Vec::new();
        let mut rix: usize = 0;
        while rix < self.rows
            invariant
                rix <= self.rows,
                wf(self@),
                crate::grid::rows_wf(self.cells@, self@.cols as nat),
                self.rows == self@.rows,
                out@ == spec_attr_render_upto(self@.grid, rix as int),
            decreases self.rows - rix,
        {
            let ghost base = out@;
            let rowv = &self.cells[rix];
            proof {
                assert(rowv@ == self@.grid[rix as int]);
            }
            let mut vis: usize = rowv.len();
            proof {
                assert(rowv@.take(vis as int) =~= rowv@);
            }
            while vis > 0 && !cell_visible(&rowv[vis - 1])
                invariant
                    vis <= rowv@.len(),
                    spec_visible_len(rowv@) == spec_visible_len(rowv@.take(vis as int)),
                decreases vis,
            {
                proof {
                    assert(rowv@.take(vis as int).last() == rowv@[vis - 1]);
                }
                vis -= 1;
                proof {
                    assert(rowv@.take(vis + 1).drop_last() =~= rowv@.take(vis as int));
                }
            }
            proof {
                if vis > 0 {
                    assert(rowv@.take(vis as int).last() == rowv@[vis - 1]);
                }
                assert(spec_visible_len(rowv@) == vis);
            }
            let ghost visseq = rowv@.take(vis as int);
            let mut cur = Pen::plain();
            let mut j: usize = 0;
            while j < vis
                invariant
                    j <= vis,
                    vis <= rowv@.len(),
                    visseq == rowv@.take(vis as int),
                    cur == spec_end_pen(visseq.take(j as int), Pen::spec_default()),
                    base + spec_attr_cells_from(visseq, Pen::spec_default(), 0) == out@
                        + spec_attr_cells_from(visseq, cur, j as int),
                decreases vis - j,
            {
                let ghost pout = out@;
                let ghost pcur = cur;
                let c = rowv[j];
                let cp = Pen { fg: c.fg, bg: c.bg, attrs: c.attrs };
                if !(cp == cur) {
                    push_sgr_chars(&mut out, &cp);
                }
                out.push(c.ch);
                cur = cp;
                j += 1;
                proof {
                    assert(visseq[j - 1] == c);
                    assert(spec_pen_of(c) == cp);
                    assert(spec_attr_cells_from(visseq, pcur, j - 1) == (if cp != pcur {
                        crate::render::spec_sgr_chars(cp)
                    } else {
                        Seq::<char>::empty()
                    }) + seq![c.ch] + spec_attr_cells_from(visseq, cp, j as int));
                    assert(out@ =~= pout + (if cp != pcur {
                        crate::render::spec_sgr_chars(cp)
                    } else {
                        Seq::<char>::empty()
                    }) + seq![c.ch]);
                    assert(pout + ((if cp != pcur {
                        crate::render::spec_sgr_chars(cp)
                    } else {
                        Seq::<char>::empty()
                    }) + seq![c.ch] + spec_attr_cells_from(visseq, cp, j as int)) =~= (pout + (
                    if cp != pcur {
                        crate::render::spec_sgr_chars(cp)
                    } else {
                        Seq::<char>::empty()
                    }) + seq![c.ch]) + spec_attr_cells_from(visseq, cp, j as int));
                    assert(visseq.take(j as int).last() == c);
                    assert(cur == spec_end_pen(visseq.take(j as int), Pen::spec_default()));
                }
            }
            proof {
                assert(visseq.take(vis as int) =~= visseq);
                assert(spec_attr_cells_from(visseq, cur, vis as int) =~= Seq::<char>::empty());
                assert(out@ =~= base + spec_attr_cells_from(visseq, Pen::spec_default(), 0));
            }
            if !(cur == Pen::plain()) {
                out.push('\u{1b}');
                out.push('[');
                out.push('0');
                out.push('m');
                proof {
                    assert(out@ =~= base + spec_attr_cells_from(visseq, Pen::spec_default(), 0)
                        + spec_sgr_reset());
                }
            }
            proof {
                assert(out@ =~= base + spec_attr_line(rowv@));
            }
            out.push('\n');
            rix += 1;
            proof {
                assert(out@ =~= spec_attr_render_upto(self@.grid, rix - 1) + spec_attr_line(
                    self@.grid[rix - 1],
                ) + seq!['\n']);
            }
        }
        chars_to_string(&out)
    }
}

/// Parameter `i` as received, or `def` where absent.
fn param_or(ps: &Vec<u16>, i: usize, def: u16) -> (r: u16)
    ensures
        r as int == spec_p_or(ps@, i as int, def as int),
{
    if i < ps.len() {
        ps[i]
    } else {
        def
    }
}

/// The count parameter, at least one.
fn param_count(ps: &Vec<u16>) -> (r: u16)
    ensures
        r as int == spec_p_count(ps@),
        1 <= r,
{
    let v = param_or(ps, 0, 1);
    if v < 1 {
        1
    } else {
        v
    }
}

/// Parameter `i` as a zero-based position.
fn param_pos(ps: &Vec<u16>, i: usize) -> (r: u16)
    ensures
        r as int == spec_p_pos(ps@, i as int),
{
    let v = param_or(ps, i, 1);
    if v < 1 {
        0
    } else {
        v - 1
    }
}

} // verus!

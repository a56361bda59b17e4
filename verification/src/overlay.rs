//! The cursor overlay: wrapping the character under the cursor in inverse
//! video, a cosmetic transformation of the rendered screen string.

use vstd::prelude::*;

use crate::grid::vv;
use crate::text::{chars_to_string, str_chars};
use crate::wire::spec_find_char;

verus! {

/// The lines of a string: the segments between newlines, the final
/// newline, if any, closing the last line.
pub open spec fn spec_split_lines(s: Seq<char>) -> Seq<Seq<char>>
    decreases s.len(),
{
    if s.len() == 0 {
        Seq::empty()
    } else {
        let f = spec_find_char(s, '\n');
        if f >= s.len() || f < 0 {
            seq![s]
        } else {
            seq![s.take(f)] + spec_split_lines(s.skip(f + 1))
        }
    }
}

/// The first `k` lines joined with newlines between them, none at the
/// end.
pub open spec fn spec_join_upto(ls: Seq<Seq<char>>, k: int) -> Seq<char>
    decreases k,
{
    if k <= 0 {
        Seq::empty()
    } else {
        spec_join_upto(ls, k - 1) + (if k - 1 > 0 {
            seq!['\n']
        } else {
            Seq::empty()
        }) + ls[k - 1]
    }
}

/// A line with the character at `col` wrapped in inverse video; past the
/// end of the line, the line unchanged.
pub open spec fn spec_inv_line(l: Seq<char>, col: int) -> Seq<char> {
    if col >= l.len() || col < 0 {
        l
    } else {
        l.take(col) + seq!['\u{1b}', '[', '7', 'm', l[col], '\u{1b}', '[', '2', '7', 'm'] + l.skip(
            col + 1,
        )
    }
}

/// The screen string with the cursor cell shown in inverse video: the
/// cursor line is rewritten and the lines are rejoined; with the cursor
/// below the last line, the string is returned unchanged.
pub open spec fn spec_apply_cursor_inverse(s: Seq<char>, row: int, col: int) -> Seq<char> {
    let ls = spec_split_lines(s);
    if row >= ls.len() || row < 0 {
        s
    } else {
        spec_join_upto(ls.update(row, spec_inv_line(ls[row], col)), ls.len() as int)
    }
}

/// Scanning tells where a character first occurs (lifted to a suffix).
proof fn lemma_find_char_is(s: Seq<char>, c: char, i: int)
    requires
        0 <= i <= s.len(),
        forall|k: int| 0 <= k < i ==> s[k] != c,
        i == s.len() || s[i] == c,
    ensures
        spec_find_char(s, c) == i,
    decreases s.len(),
{
    if s.len() == 0 {
    } else if s[0] == c {
        assert(i == 0);
    } else {
        assert(i >= 1);
        assert(forall|k: int| 0 <= k < i - 1 ==> #[trigger] s.drop_first()[k] == s[k + 1]);
        if i < s.len() {
            assert(s.drop_first()[i - 1] == s[i]);
        }
        lemma_find_char_is(s.drop_first(), c, i - 1);
    }
}

/// Wrap the character at the cursor in inverse video.  The screen string
/// is split into lines, the cursor line is rewritten, and the lines are
/// rejoined with newlines between them; a cursor outside the text leaves
/// the string unchanged.
pub fn apply_cursor_inverse(screen: &str, cursor_row: usize, cursor_col: usize) -> (r: String)
    ensures
        r@ == spec_apply_cursor_inverse(screen@, cursor_row as int, cursor_col as int),
{
    let v = str_chars(screen);
    let mut lines: Vec<Vec<char>> = Vec::new();
    let mut i: usize = 0;
    proof {
        assert(v@.skip(0) =~= v@);
        assert(vv(lines@) + spec_split_lines(v@) =~= spec_split_lines(v@));
    }
    while i < v.len()
        invariant
            i <= v@.len(),
            v@ == screen@,
            spec_split_lines(v@) == vv(lines@) + spec_split_lines(v@.skip(i as int)),
        decreases v@.len() - i,
    {
        let ghost pi = i as int;
        let mut j: usize = i;
        while j < v.len() && v[j] != '\n'
            invariant
                i <= j <= v@.len(),
                forall|k: int| i <= k < j ==> v@[k] != '\n',
            decreases v@.len() - j,
        {
            j += 1;
        }
        let mut line: Vec<char> = Vec::new();
        let mut k: usize = i;
        while k < j
            invariant
                i <= k <= j,
                j <= v@.len(),
                line@ == v@.subrange(i as int, k as int),
            decreases j - k,
        {
            line.push(v[k]);
            k += 1;
            proof {
                assert(line@ =~= v@.subrange(i as int, k as int));
            }
        }
        let ghost prev_lines = lines@;
        lines.push(line);
        proof {
            let suf = v@.skip(pi);
            assert(forall|t: int| 0 <= t < suf.len() ==> #[trigger] suf[t] == v@[pi + t]);
            lemma_find_char_is(suf, '\n', j - pi);
            assert(spec_find_char(suf, '\n') == j - pi);
        }
        if j < v.len() {
            i = j + 1;
            proof {
                let suf = v@.skip(pi);
                assert(suf.take(j - pi) =~= v@.subrange(pi, j as int));
                assert(suf.skip(j - pi + 1) =~= v@.skip(i as int));
                assert(spec_split_lines(suf) == seq![v@.subrange(pi, j as int)]
                    + spec_split_lines(v@.skip(i as int)));
                assert(vv(lines@) =~= vv(prev_lines).push(v@.subrange(pi, j as int)));
                assert(vv(lines@) + spec_split_lines(v@.skip(i as int)) =~= vv(prev_lines) + (seq![
                    v@.subrange(pi, j as int),
                ] + spec_split_lines(v@.skip(i as int))));
            }
        } else {
            i = j;
            proof {
                let suf = v@.skip(pi);
                assert(suf =~= v@.subrange(pi, j as int));
                assert(spec_split_lines(suf) == seq![v@.subrange(pi, j as int)]);
                assert(v@.skip(i as int) =~= Seq::<char>::empty());
                assert(spec_split_lines(v@.skip(i as int)) =~= Seq::<Seq<char>>::empty());
                assert(vv(lines@) =~= vv(prev_lines).push(v@.subrange(pi, j as int)));
                assert(vv(lines@) + spec_split_lines(v@.skip(i as int)) =~= vv(prev_lines) + seq![
                    v@.subrange(pi, j as int),
                ]);
            }
        }
    }
    proof {
        assert(v@.skip(v@.len() as int) =~= Seq::<char>::empty());
        assert(spec_split_lines(v@.skip(v@.len() as int)) =~= Seq::<Seq<char>>::empty());
        assert(vv(lines@) =~= spec_split_lines(v@));
    }
    let ghost ls = spec_split_lines(v@);

    if cursor_row >= lines.len() {
        return screen.to_owned();
    }

    // rewrite the cursor line
    let old_line = &lines[cursor_row];
    let mut new_line: Vec<char> = Vec::new();
    if cursor_col >= old_line.len() {
        let mut k: usize = 0;
        while k < old_line.len()
            invariant
                k <= old_line@.len(),
                new_line@ == old_line@.subrange(0, k as int),
            decreases old_line@.len() - k,
        {
            new_line.push(old_line[k]);
            k += 1;
            proof {
                assert(new_line@ =~= old_line@.subrange(0, k as int));
            }
        }
        proof {
            assert(new_line@ =~= old_line@);
            assert(new_line@ == spec_inv_line(ls[cursor_row as int], cursor_col as int));
        }
    } else {
        let mut k: usize = 0;
        while k < cursor_col
            invariant
                k <= cursor_col,
                cursor_col < old_line@.len(),
                new_line@ == old_line@.subrange(0, k as int),
            decreases cursor_col - k,
        {
            new_line.push(old_line[k]);
            k += 1;
            proof {
                assert(new_line@ =~= old_line@.subrange(0, k as int));
            }
        }
        new_line.push('\u{1b}');
        new_line.push('[');
        new_line.push('7');
        new_line.push('m');
        new_line.push(old_line[cursor_col]);
        new_line.push('\u{1b}');
        new_line.push('[');
        new_line.push('2');
        new_line.push('7');
        new_line.push('m');
        let mut k2: usize = cursor_col + 1;
        while k2 < old_line.len()
            invariant
                cursor_col + 1 <= k2 <= old_line@.len(),
                cursor_col < old_line@.len(),
                new_line@ == old_line@.subrange(0, cursor_col as int) + seq![
                    '\u{1b}',
                    '[',
                    '7',
                    'm',
                    old_line@[cursor_col as int],
                    '\u{1b}',
                    '[',
                    '2',
                    '7',
                    'm',
                ] + old_line@.subrange(cursor_col + 1, k2 as int),
            decreases old_line@.len() - k2,
        {
            new_line.push(old_line[k2]);
            k2 += 1;
            proof {
                assert(new_line@ =~= old_line@.subrange(0, cursor_col as int) + seq![
                    '\u{1b}',
                    '[',
                    '7',
                    'm',
                    old_line@[cursor_col as int],
                    '\u{1b}',
                    '[',
                    '2',
                    '7',
                    'm',
                ] + old_line@.subrange(cursor_col + 1, k2 as int));
            }
        }
        proof {
            assert(old_line@.subrange(0, cursor_col as int) =~= old_line@.take(cursor_col as int));
            assert(old_line@.subrange(cursor_col + 1, old_line@.len() as int) =~= old_line@.skip(
                cursor_col + 1,
            ));
            assert(new_line@ =~= spec_inv_line(ls[cursor_row as int], cursor_col as int));
        }
    }
    lines.set(cursor_row, new_line);
    let ghost ls2 = ls.update(
        cursor_row as int,
        spec_inv_line(ls[cursor_row as int], cursor_col as int),
    );
    proof {
        assert(vv(lines@) =~= ls2);
    }

    // join with newlines between the lines
    let mut out: Vec<char> = Vec::new();
    let mut t: usize = 0;
    while t < lines.len()
        invariant
            t <= lines@.len(),
            vv(lines@) == ls2,
            out@ == spec_join_upto(ls2, t as int),
        decreases lines@.len() - t,
    {
        if t > 0 {
            out.push('\n');
        }
        let lv = &lines[t];
        let ghost base = out@;
        let mut k: usize = 0;
        while k < lv.len()
            invariant
                k <= lv@.len(),
                out@ == base + lv@.subrange(0, k as int),
            decreases lv@.len() - k,
        {
            out.push(lv[k]);
            k += 1;
            proof {
                assert(out@ =~= base + lv@.subrange(0, k as int));
            }
        }
        t += 1;
        proof {
            assert(lv@.subrange(0, lv@.len() as int) =~= lv@);
            assert(lv@ == ls2[t - 1]);
            assert(out@ =~= spec_join_upto(ls2, t as int));
        }
    }
    proof {
        assert(ls2.len() == ls.len());
    }
    chars_to_string(&out)
}

} // verus!

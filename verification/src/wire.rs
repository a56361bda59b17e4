//! Plain-text parsing at the edge of the protocol: the WxH size argument,
//! signal names and numbers, and the C-style escapes of input text.

use vstd::prelude::*;

use crate::text::{char_from_u32, chars_to_string, str_chars};

verus! {

/// Whether a character is a decimal digit.
pub open spec fn spec_is_digit(c: char) -> bool {
    '0' <= c && c <= '9'
}

/// The value of a digit string, most significant first.
pub open spec fn spec_digits_val(s: Seq<char>) -> int
    decreases s.len(),
{
    if s.len() == 0 {
        0
    } else {
        spec_digits_val(s.drop_last()) * 10 + (s.last() as int - '0' as int)
    }
}

/// A run of digits naming a dimension: non-empty, digits only.
pub open spec fn spec_all_digits(s: Seq<char>) -> bool {
    s.len() > 0 && forall|i: int| 0 <= i < s.len() ==> spec_is_digit(#[trigger] s[i])
}

/// The index of the first occurrence of a character, or the length where
/// there is none.
pub open spec fn spec_find_char(s: Seq<char>, c: char) -> int
    decreases s.len(),
{
    if s.len() == 0 {
        0
    } else if s[0] == c {
        0
    } else {
        1 + spec_find_char(s.drop_first(), c)
    }
}

/// A dimension text is valid when it is all digits and names a window
/// dimension: at least one, at most the window-size word.
pub open spec fn spec_dim_valid(s: Seq<char>) -> bool {
    spec_all_digits(s) && 1 <= spec_digits_val(s) <= 0xFFFF
}

/// Why a size argument was rejected.
#[derive(Clone, Copy, PartialEq, Eq, Structural, Debug)]
pub enum SizeError {
    /// Not exactly one `x` between two parts.
    Format,
    /// The columns part is not a usable number.
    Columns,
    /// The rows part is not a usable number.
    Rows,
}

impl SizeError {
    /// The human message of the error reply.
    pub fn message(&self) -> (r: &'static str)
    {
        match self {
            SizeError::Format => "Invalid size format, expected WxH like 80x24",
            SizeError::Columns => "Invalid columns",
            SizeError::Rows => "Invalid rows",
        }
    }
}

/// Parse digits with saturation above the window-size range, so that an
/// over-large number is recognized without unbounded arithmetic.
fn parse_dim(v: &Vec<char>, from: usize, to: usize) -> (r: Option<u16>)
    requires
        from <= to <= v@.len(),
    ensures
        r is Some <==> spec_dim_valid(v@.subrange(from as int, to as int)),
        r matches Some(d) ==> d as int == spec_digits_val(v@.subrange(from as int, to as int)),
{
    let ghost part = v@.subrange(from as int, to as int);
    if from == to {
        proof {
            assert(!spec_all_digits(part));
        }
        return None;
    }
    let mut val: u32 = 0;
    let mut i: usize = from;
    while i < to
        invariant
            from <= i <= to,
            to <= v@.len(),
            part == v@.subrange(from as int, to as int),
            forall|k: int| from <= k < i ==> spec_is_digit(#[trigger] v@[k]),
            spec_digits_val(part.take(i - from)) <= 0xFFFF ==> val == spec_digits_val(
                part.take(i - from),
            ),
            spec_digits_val(part.take(i - from)) > 0xFFFF ==> val > 0xFFFF,
            val <= 700009,
        decreases to - i,
    {
        let c = v[i];
        if !('0' <= c && c <= '9') {
            proof {
                assert(part[i - from] == v@[i as int]);
                assert(!spec_all_digits(part));
            }
            return None;
        }
        let d: u32 = c as u32 - 48;
        let ghost prevval = spec_digits_val(part.take(i - from));
        val = if val > 0xFFFF {
            70000
        } else {
            val * 10 + d
        };
        i += 1;
        proof {
            assert(part.take(i - from).drop_last() =~= part.take(i - from - 1));
            assert(part.take(i - from).last() == v@[i - 1]);
            assert(spec_digits_val(part.take(i - from)) == prevval * 10 + (v@[i - 1] as int
                - '0' as int));
            if prevval > 0xFFFF {
                assert(spec_digits_val(part.take(i - from)) > 0xFFFF);
            }
        }
    }
    proof {
        assert(part.take(to - from) =~= part);
        assert(spec_all_digits(part));
    }
    if val >= 1 && val <= 0xFFFF {
        Some(val as u16)
    } else {
        None
    }
}

/// Whether the size text has exactly one `x`: one occurs, and none after
/// the first.
pub open spec fn spec_one_x(s: Seq<char>) -> bool {
    let f = spec_find_char(s, 'x');
    f < s.len() && (forall|k: int| f < k < s.len() ==> s[k] != 'x')
}

/// Parse a size argument of the form `WxH` into (columns, rows).  The
/// argument is accepted exactly when one `x` separates two decimal numbers
/// between one and the window-size maximum; the error says which part was
/// at fault.
pub fn parse_terminal_size(size: &str) -> (r: Result<(u16, u16), SizeError>)
    ensures
        r is Ok <==> (spec_one_x(size@) && spec_dim_valid(
            size@.take(spec_find_char(size@, 'x')),
        ) && spec_dim_valid(size@.skip(spec_find_char(size@, 'x') + 1))),
        r matches Ok((c, w)) ==> c as int == spec_digits_val(
            size@.take(spec_find_char(size@, 'x')),
        ) && w as int == spec_digits_val(size@.skip(spec_find_char(size@, 'x') + 1)),
        r matches Err(e) ==> (e is Format <==> !spec_one_x(size@)),
{
    let v = str_chars(size);
    let mut found: Option<usize> = None;
    let mut dup = false;
    let ghost mut wit: int = 0;
    let mut i: usize = 0;
    while i < v.len()
        invariant
            i <= v@.len(),
            v@ == size@,
            match found {
                None => !dup && forall|k: int| 0 <= k < i ==> v@[k] != 'x',
                Some(f) => {
                    &&& f < i
                    &&& v@[f as int] == 'x'
                    &&& forall|k: int| 0 <= k < f ==> v@[k] != 'x'
                    &&& (!dup ==> forall|k: int| f < k < i ==> v@[k] != 'x')
                    &&& (dup ==> f < wit < i && v@[wit] == 'x')
                },
            },
        decreases v@.len() - i,
    {
        if v[i] == 'x' {
            match found {
                None => {
                    found = Some(i);
                },
                Some(_) => {
                    dup = true;
                    proof {
                        wit = i as int;
                    }
                },
            }
        }
        i += 1;
    }
    let first = match found {
        Some(f) => f,
        None => {
            proof {
                lemma_find_char_is(v@, 'x', v@.len() as int);
            }
            return Err(SizeError::Format);
        },
    };
    proof {
        lemma_find_char_is(v@, 'x', first as int);
    }
    if dup {
        return Err(SizeError::Format);
    }
    let cols = match parse_dim(&v, 0, first) {
        Some(c) => c,
        None => {
            proof {
                assert(v@.subrange(0, first as int) =~= v@.take(first as int));
            }
            return Err(SizeError::Columns);
        },
    };
    let rows = match parse_dim(&v, first + 1, v.len()) {
        Some(w) => w,
        None => {
            proof {
                assert(v@.subrange(first + 1, v@.len() as int) =~= v@.skip(first + 1));
            }
            return Err(SizeError::Rows);
        },
    };
    proof {
        assert(v@.subrange(0, first as int) =~= v@.take(first as int));
        assert(v@.subrange(first + 1, v@.len() as int) =~= v@.skip(first + 1));
    }
    Ok((cols, rows))
}

/// Scanning tells where a character first occurs: before `i` it does not
/// occur, and at `i` it does, or the string ends.
proof fn lemma_find_char_is(s: Seq<char>, c: char, i: int)
    requires
        0 <= i <= s.len(),
        forall|k: int| 0 <= k < i ==> s[k] != c,
        i == s.len() || s[i] == c,
    ensures
        spec_find_char(s, c) == i,
    decreases s.len(),
{
    if s.len() == 0 {
    } else if s[0] == c {
        assert(i == 0);
    } else {
        assert(i >= 1);
        assert(forall|k: int| 0 <= k < i - 1 ==> #[trigger] s.drop_first()[k] == s[k + 1]);
        if i < s.len() {
            assert(s.drop_first()[i - 1] == s[i]);
        }
        lemma_find_char_is(s.drop_first(), c, i - 1);
    }
}

/// The upper-case form of a character, for the ASCII letters.
pub open spec fn spec_upper(c: char) -> char {
    if 'a' <= c && c <= 'z' {
        ((c as int - 32) as u32) as char
    } else {
        c
    }
}

/// A character sequence upper-cased letter by letter.
pub open spec fn spec_upper_seq(s: Seq<char>) -> Seq<char> {
    Seq::new(s.len(), |i: int| spec_upper(s[i]))
}

/// The signal number of a short signal name, upper-cased and without the
/// `SIG` prefix: the seven names the protocol accepts.
pub open spec fn spec_signal_of_name(n: Seq<char>) -> Option<i32> {
    if n == seq!['H', 'U', 'P'] {
        Some(1i32)
    } else if n == seq!['I', 'N', 'T'] {
        Some(2i32)
    } else if n == seq!['Q', 'U', 'I', 'T'] {
        Some(3i32)
    } else if n == seq!['K', 'I', 'L', 'L'] {
        Some(9i32)
    } else if n == seq!['U', 'S', 'R', '1'] {
        Some(10i32)
    } else if n == seq!['U', 'S', 'R', '2'] {
        Some(12i32)
    } else if n == seq!['T', 'E', 'R', 'M'] {
        Some(15i32)
    } else {
        None
    }
}

/// The short name of a signal argument: upper-cased, one leading `SIG`
/// removed where present.
pub open spec fn spec_signal_core(s: Seq<char>) -> Seq<char> {
    let u = spec_upper_seq(s);
    if u.len() >= 3 && u.take(3) == seq!['S', 'I', 'G'] {
        u.skip(3)
    } else {
        u
    }
}

/// What a signal argument names: a decimal number names its own signal
/// when it is in the classic range one to thirty-one; otherwise the
/// argument is a name, with or without the `SIG` prefix, in either case.
pub open spec fn spec_parse_signal(s: Seq<char>) -> Option<i32> {
    if s.len() > 0 && spec_all_digits(s) {
        if 1 <= spec_digits_val(s) <= 31 {
            Some(spec_digits_val(s) as i32)
        } else {
            None
        }
    } else {
        spec_signal_of_name(spec_signal_core(s))
    }
}

/// Why a signal argument was rejected: it names no signal the protocol
/// knows.
#[derive(Clone, Copy, PartialEq, Eq, Structural, Debug)]
pub enum SignalError {
    Unknown,
}

impl SignalError {
    /// The human message of the error reply.
    pub fn message(&self) -> (r: &'static str)
    {
        "Invalid signal"
    }
}

/// Parse a signal argument into its signal number, exactly when
/// [`spec_parse_signal`] accepts it.
pub fn parse_signal(sig: &str) -> (r: Result<i32, SignalError>)
    ensures
        r matches Ok(n) ==> spec_parse_signal(sig@) == Some(n),
        r is Err <==> spec_parse_signal(sig@) is None,
{
    let v = str_chars(sig);
    let mut all_digits = v.len() > 0;
    let mut i: usize = 0;
    while i < v.len()
        invariant
            i <= v@.len(),
            all_digits == (v@.len() > 0 && forall|k: int|
                0 <= k < i ==> spec_is_digit(#[trigger] v@[k])),
        decreases v@.len() - i,
    {
        if !('0' <= v[i] && v[i] <= '9') {
            all_digits = false;
        }
        i += 1;
    }
    if all_digits {
        let n = match parse_dim(&v, 0, v.len()) {
            Some(n) => n,
            None => {
                proof {
                    assert(v@.subrange(0, v@.len() as int) =~= v@);
                    lemma_digits_val_nonneg(v@);
                }
                return Err(SignalError::Unknown);
            },
        };
        proof {
            assert(v@.subrange(0, v@.len() as int) =~= v@);
        }
        if 1 <= n && n <= 31 {
            Ok(n as i32)
        } else {
            Err(SignalError::Unknown)
        }
    } else {
        // upper-case and strip one SIG prefix
        let mut u: Vec<char> = Vec::new();
        let mut j: usize = 0;
        while j < v.len()
            invariant
                j <= v@.len(),
                u@ == spec_upper_seq(v@).take(j as int),
            decreases v@.len() - j,
        {
            let c = v[j];
            let uc: char = if 'a' <= c && c <= 'z' {
                let code: u32 = c as u32 - 32;
                match char_from_u32(code) {
                    Some(x) => {
                        proof {
                            vstd::utf8::char_u32_cast(x, code);
                        }
                        x
                    },
                    None => vstd::pervasive::unreached(),
                }
            } else {
                c
            };
            u.push(uc);
            j += 1;
            proof {
                assert(u@ =~= spec_upper_seq(v@).take(j as int));
            }
        }
        proof {
            assert(spec_upper_seq(v@).take(v@.len() as int) =~= spec_upper_seq(v@));
        }
        let core_start: usize = if u.len() >= 3 && u[0] == 'S' && u[1] == 'I' && u[2] == 'G' {
            proof {
                assert(u@.take(3) =~= seq!['S', 'I', 'G']);
            }
            3
        } else {
            proof {
                if u@.len() >= 3 && u@.take(3) == seq!['S', 'I', 'G'] {
                    assert(u@[0] == 'S' && u@[1] == 'I' && u@[2] == 'G');
                }
            }
            0
        };
        let mut core: Vec<char> = Vec::new();
        let mut k: usize = core_start;
        while k < u.len()
            invariant
                core_start <= k <= u@.len(),
                core@ == u@.subrange(core_start as int, k as int),
            decreases u@.len() - k,
        {
            core.push(u[k]);
            k += 1;
            proof {
                assert(core@ =~= u@.subrange(core_start as int, k as int));
            }
        }
        proof {
            assert(u@.subrange(core_start as int, u@.len() as int) =~= u@.skip(core_start as int));
            assert(core@ == spec_signal_core(v@));
        }
        match signal_of_name(&core) {
            Some(n) => Ok(n),
            None => Err(SignalError::Unknown),
        }
    }
}

/// Digit strings name non-negative values.
proof fn lemma_digits_val_nonneg(s: Seq<char>)
    requires
        spec_all_digits(s),
    ensures
        spec_digits_val(s) >= 0,
    decreases s.len(),
{
    if s.len() > 0 {
        assert(s.last() == s[s.len() - 1]);
        assert(spec_is_digit(s.last()));
        if s.len() == 1 {
            assert(s.drop_last().len() == 0);
            assert(spec_digits_val(s.drop_last()) == 0);
        } else {
            assert(spec_all_digits(s.drop_last())) by {
                assert(forall|i: int|
                    0 <= i < s.len() - 1 ==> #[trigger] s.drop_last()[i] == s[i]);
            }
            lemma_digits_val_nonneg(s.drop_last());
        }
    }
}

/// The signal number of a short name held in a vector.
fn signal_of_name(n: &Vec<char>) -> (r: Option<i32>)
    ensures
        r == spec_signal_of_name(n@),
{
    if n.len() == 3 && n[0] == 'H' && n[1] == 'U' && n[2] == 'P' {
        proof {
            assert(n@ =~= seq!['H', 'U', 'P']);
        }
        Some(1)
    } else if n.len() == 3 && n[0] == 'I' && n[1] == 'N' && n[2] == 'T' {
        proof {
            assert(n@ =~= seq!['I', 'N', 'T']);
        }
        Some(2)
    } else if n.len() == 4 && n[0] == 'Q' && n[1] == 'U' && n[2] == 'I' && n[3] == 'T' {
        proof {
            assert(n@ =~= seq!['Q', 'U', 'I', 'T']);
        }
        Some(3)
    } else if n.len() == 4 && n[0] == 'K' && n[1] == 'I' && n[2] == 'L' && n[3] == 'L' {
        proof {
            assert(n@ =~= seq!['K', 'I', 'L', 'L']);
        }
        Some(9)
    } else if n.len() == 4 && n[0] == 'U' && n[1] == 'S' && n[2] == 'R' && n[3] == '1' {
        proof {
            assert(n@ =~= seq!['U', 'S', 'R', '1']);
        }
        Some(10)
    } else if n.len() == 4 && n[0] == 'U' && n[1] == 'S' && n[2] == 'R' && n[3] == '2' {
        proof {
            assert(n@ =~= seq!['U', 'S', 'R', '2']);
        }
        Some(12)
    } else if n.len() == 4 && n[0] == 'T' && n[1] == 'E' && n[2] == 'R' && n[3] == 'M' {
        proof {
            assert(n@ =~= seq!['T', 'E', 'R', 'M']);
        }
        Some(15)
    } else {
        proof {
            if n@ == seq!['H', 'U', 'P'] {
                assert(n@.len() == 3 && n@[0] == 'H' && n@[1] == 'U' && n@[2] == 'P');
            }
            if n@ == seq!['I', 'N', 'T'] {
                assert(n@.len() == 3 && n@[0] == 'I' && n@[1] == 'N' && n@[2] == 'T');
            }
            if n@ == seq!['Q', 'U', 'I', 'T'] {
                assert(n@.len() == 4 && n@[0] == 'Q');
            }
            if n@ == seq!['K', 'I', 'L', 'L'] {
                assert(n@.len() == 4 && n@[0] == 'K');
            }
            if n@ == seq!['U', 'S', 'R', '1'] {
                assert(n@.len() == 4 && n@[3] == '1');
            }
            if n@ == seq!['U', 'S', 'R', '2'] {
                assert(n@.len() == 4 && n@[3] == '2');
            }
            if n@ == seq!['T', 'E', 'R', 'M'] {
                assert(n@.len() == 4 && n@[0] == 'T');
            }
        }
        None
    }
}

/// The character an escape letter stands for, among the simple escapes.
pub open spec fn spec_simple_escape(e: char) -> Option<char> {
    if e == 'n' {
        Some('\n')
    } else if e == 'r' {
        Some('\r')
    } else if e == 't' {
        Some('\t')
    } else if e == 'a' {
        Some('\u{7}')
    } else if e == 'b' {
        Some('\u{8}')
    } else if e == 'f' {
        Some('\u{c}')
    } else if e == 'v' {
        Some('\u{b}')
    } else if e == '\\' {
        Some('\\')
    } else if e == 'e' || e == 'E' {
        Some('\u{1b}')
    } else {
        None
    }
}

/// The value of a hexadecimal digit, or nothing.
pub open spec fn spec_hex_val(c: char) -> Option<int> {
    if '0' <= c && c <= '9' {
        Some(c as int - '0' as int)
    } else if 'a' <= c && c <= 'f' {
        Some(c as int - 'a' as int + 10)
    } else if 'A' <= c && c <= 'F' {
        Some(c as int - 'A' as int + 10)
    } else {
        None
    }
}

/// The decoding of a text with C-style escapes: the simple escapes, the
/// two-digit hexadecimal escape, a backslash before any other character
/// passed through literally, and a lone final backslash kept; only a
/// malformed hexadecimal escape fails.
pub open spec fn spec_unescape(s: Seq<char>) -> Option<Seq<char>>
    decreases s.len(),
{
    if s.len() == 0 {
        Some(Seq::empty())
    } else if s[0] != '\\' {
        match spec_unescape(s.drop_first()) {
            Some(rest) => Some(seq![s[0]] + rest),
            None => None,
        }
    } else if s.len() == 1 {
        Some(seq!['\\'])
    } else {
        let e = s[1];
        match spec_simple_escape(e) {
            Some(c) => match spec_unescape(s.skip(2)) {
                Some(rest) => Some(seq![c] + rest),
                None => None,
            },
            None => {
                if e == 'x' {
                    if s.len() >= 4 && spec_hex_val(s[2]) is Some && spec_hex_val(s[3]) is Some {
                        let hv = spec_hex_val(s[2])->Some_0 * 16 + spec_hex_val(s[3])->Some_0;
                        match spec_unescape(s.skip(4)) {
                            Some(rest) => Some(seq![(hv as u32) as char] + rest),
                            None => None,
                        }
                    } else {
                        None
                    }
                } else {
                    match spec_unescape(s.skip(2)) {
                        Some(rest) => Some(seq!['\\', e] + rest),
                        None => None,
                    }
                }
            },
        }
    }
}

/// The value of a hexadecimal digit character.
fn hex_val(c: char) -> (r: Option<u32>)
    ensures
        r is Some <==> spec_hex_val(c) is Some,
        r matches Some(v) ==> Some(v as int) == spec_hex_val(c),
{
    if '0' <= c && c <= '9' {
        Some(c as u32 - 48)
    } else if 'a' <= c && c <= 'f' {
        Some(c as u32 - 97 + 10)
    } else if 'A' <= c && c <= 'F' {
        Some(c as u32 - 65 + 10)
    } else {
        None
    }
}

/// Why input text was rejected: its `\x` escape is incomplete or holds
/// no hexadecimal digits.
#[derive(Clone, Copy, PartialEq, Eq, Structural, Debug)]
pub enum UnescapeError {
    BadHexEscape,
}

impl UnescapeError {
    /// The human message of the error reply.
    pub fn message(&self) -> (r: &'static str)
    {
        "incomplete or invalid \\x escape"
    }
}

/// Decode C-style escape sequences in input text: `\n \r \t \a \b \f \v
/// \\ \e \E \xHH`; an unknown escape passes through literally, and only a
/// malformed `\x` escape is an error.
pub fn unescape(s: &str) -> (r: Result<String, UnescapeError>)
    ensures
        r is Ok <==> spec_unescape(s@) is Some,
        r matches Ok(t) ==> Some(t@) == spec_unescape(s@),
{
    let v = str_chars(s);
    let mut out: Vec<char> = Vec::new();
    let mut i: usize = 0;
    proof {
        assert(v@.skip(0) =~= v@);
        if spec_unescape(v@) is Some {
            assert(Seq::<char>::empty() + spec_unescape(v@)->Some_0 =~= spec_unescape(
                v@,
            )->Some_0);
        }
    }
    while i < v.len()
        invariant
            i <= v@.len(),
            v@ == s@,
            spec_unescape(v@) == (match spec_unescape(v@.skip(i as int)) {
                Some(rest) => Some(out@ + rest),
                None => None::<Seq<char>>,
            }),
        decreases v@.len() - i,
    {
        let ghost pre = out@;
        let ghost pi = i as int;
        let c = v[i];
        if c != '\\' {
            out.push(c);
            i += 1;
            proof {
                assert(v@.skip(pi)[0] == c);
                assert(v@.skip(pi).drop_first() =~= v@.skip(pi + 1));
                assert(spec_unescape(v@.skip(pi)) == (match spec_unescape(v@.skip(pi + 1)) {
                    Some(r2) => Some(seq![c] + r2),
                    None => None::<Seq<char>>,
                }));
                lemma_unescape_chain(v@, pi, pi + 1, pre, seq![c]);
            }
        } else if i + 1 >= v.len() {
            out.push('\\');
            i += 1;
            proof {
                assert(v@.skip(pi)[0] == '\\');
                assert(v@.skip(pi).len() == 1);
                assert(spec_unescape(v@.skip(pi)) == Some(seq!['\\']));
                assert(v@.skip(pi + 1) =~= Seq::<char>::empty());
                assert(spec_unescape(v@.skip(pi)) == (match spec_unescape(v@.skip(pi + 1)) {
                    Some(r2) => Some(seq!['\\'] + r2),
                    None => None::<Seq<char>>,
                })) by {
                    assert(seq!['\\'] + Seq::<char>::empty() =~= seq!['\\']);
                }
                lemma_unescape_chain(v@, pi, pi + 1, pre, seq!['\\']);
            }
        } else {
            let e = v[i + 1];
            let simple: Option<char> = if e == 'n' {
                Some('\n')
            } else if e == 'r' {
                Some('\r')
            } else if e == 't' {
                Some('\t')
            } else if e == 'a' {
                Some('\u{7}')
            } else if e == 'b' {
                Some('\u{8}')
            } else if e == 'f' {
                Some('\u{c}')
            } else if e == 'v' {
                Some('\u{b}')
            } else if e == '\\' {
                Some('\\')
            } else if e == 'e' || e == 'E' {
                Some('\u{1b}')
            } else {
                None
            };
            proof {
                assert(simple == spec_simple_escape(e));
                assert(v@.skip(pi)[0] == '\\');
                assert(v@.skip(pi)[1] == e);
            }
            match simple {
                Some(sc) => {
                    out.push(sc);
                    i += 2;
                    proof {
                        assert(v@.skip(pi).skip(2) =~= v@.skip(pi + 2));
                        assert(spec_unescape(v@.skip(pi)) == (match spec_unescape(
                            v@.skip(pi + 2),
                        ) {
                            Some(r2) => Some(seq![sc] + r2),
                            None => None::<Seq<char>>,
                        }));
                        lemma_unescape_chain(v@, pi, pi + 2, pre, seq![sc]);
                    }
                },
                None => {
                    if e == 'x' {
                        if v.len() - i < 4 {
                            proof {
                                assert(v@.skip(pi).len() < 4);
                                assert(spec_unescape(v@.skip(pi)) is None);
                            }
                            return Err(UnescapeError::BadHexEscape);
                        }
                        let h1 = match hex_val(v[i + 2]) {
                            Some(h) => h,
                            None => {
                                proof {
                                    assert(v@.skip(pi)[2] == v@[pi + 2]);
                                    assert(spec_unescape(v@.skip(pi)) is None);
                                }
                                return Err(UnescapeError::BadHexEscape);
                            },
                        };
                        let h2 = match hex_val(v[i + 3]) {
                            Some(h) => h,
                            None => {
                                proof {
                                    assert(v@.skip(pi)[2] == v@[pi + 2]);
                                    assert(v@.skip(pi)[3] == v@[pi + 3]);
                                    assert(spec_unescape(v@.skip(pi)) is None);
                                }
                                return Err(UnescapeError::BadHexEscape);
                            },
                        };
                        let code: u32 = h1 * 16 + h2;
                        let hc = match char_from_u32(code) {
                            Some(x) => {
                                proof {
                                    vstd::utf8::char_u32_cast(x, code);
                                }
                                x
                            },
                            None => vstd::pervasive::unreached(),
                        };
                        out.push(hc);
                        i += 4;
                        proof {
                            assert(v@.skip(pi)[2] == v@[pi + 2]);
                            assert(v@.skip(pi)[3] == v@[pi + 3]);
                            assert(v@.skip(pi).skip(4) =~= v@.skip(pi + 4));
                            assert(spec_unescape(v@.skip(pi)) == (match spec_unescape(
                                v@.skip(pi + 4),
                            ) {
                                Some(r2) => Some(seq![hc] + r2),
                                None => None::<Seq<char>>,
                            }));
                            lemma_unescape_chain(v@, pi, pi + 4, pre, seq![hc]);
                        }
                    } else {
                        out.push('\\');
                        out.push(e);
                        i += 2;
                        proof {
                            assert(v@.skip(pi).skip(2) =~= v@.skip(pi + 2));
                            assert(spec_unescape(v@.skip(pi)) == (match spec_unescape(
                                v@.skip(pi + 2),
                            ) {
                                Some(r2) => Some(seq!['\\', e] + r2),
                                None => None::<Seq<char>>,
                            }));
                            lemma_unescape_chain(v@, pi, pi + 2, pre, seq!['\\', e]);
                        }
                    }
                },
            }
        }
    }
    proof {
        assert(v@.skip(v@.len() as int) =~= Seq::<char>::empty());
        assert(out@ + Seq::<char>::empty() =~= out@);
    }
    Ok(chars_to_string(&out))
}

/// Two decoding steps compose: decoding from `i` is a piece and then the
/// decoding from `j`.
proof fn lemma_unescape_chain(v: Seq<char>, i: int, j: int, pre: Seq<char>, piece: Seq<char>)
    requires
        0 <= i <= j <= v.len(),
        spec_unescape(v) == (match spec_unescape(v.skip(i)) {
            Some(rest) => Some(pre + rest),
            None => None::<Seq<char>>,
        }),
        spec_unescape(v.skip(i)) == (match spec_unescape(v.skip(j)) {
            Some(r2) => Some(piece + r2),
            None => None::<Seq<char>>,
        }),
    ensures
        spec_unescape(v) == (match spec_unescape(v.skip(j)) {
            Some(r2) => Some((pre + piece) + r2),
            None => None::<Seq<char>>,
        }),
{
    match spec_unescape(v.skip(j)) {
        Some(r2) => {
            assert(pre + (piece + r2) =~= (pre + piece) + r2);
        },
        None => {},
    }
}

} // verus!

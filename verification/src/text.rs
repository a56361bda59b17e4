//! Small text building blocks: pushing characters onto strings, walking a
//! string's characters, and decimal and hexadecimal digit rendering.

use vstd::prelude::*;

verus! {

use vstd::std_specs::iter::IteratorSpec;

/// Relies on String::push: appends exactly the given character.
#[verifier::external_body]
pub fn push_char(s: &mut String, c: char)
    ensures
        final(s)@ == old(s)@.push(c),
{
    s.push(c);
}

/// Relies on char::from_u32: `Some` exactly for Unicode scalar values
/// (codes up to 0x10FFFF that are not surrogates), and the character
/// returned has the given code.
#[verifier::external_body]
pub fn char_from_u32(u: u32) -> (r: Option<char>)
    ensures
        r is Some <==> (u < 0xD800 || (0xE000 <= u && u <= 0x10FFFF)),
        r matches Some(c) ==> c as u32 == u,
{
    char::from_u32(u)
}

/// The characters of a string collected into a vector.
pub fn str_chars(s: &str) -> (v: Vec<char>)
    ensures
        v@ == s@,
{
    let mut it = s.chars();
    let ghost all: Seq<char> = s@;
    proof {
        vstd::string::axiom_spec_iter(s);
    }
    let mut v: Vec<char> = Vec::new();
    loop
        invariant
            all == s@,
            IteratorSpec::obeys_prophetic_iter_laws(&it),
            IteratorSpec::decrease(&it) is Some,
            v@ + IteratorSpec::remaining(&it) == all,
        decreases IteratorSpec::decrease(&it)->0,
    {
        let ghost prev = it;
        let r = it.next();
        proof {
            vstd::string::next_postcondition(&prev, &it, r);
        }
        match r {
            Some(c) => {
                v.push(c);
                proof {
                    assert(v@ + IteratorSpec::remaining(&it) =~= all);
                }
            },
            None => {
                proof {
                    assert(v@ =~= all);
                }
                return v;
            },
        }
    }
}

/// A string holding exactly the given characters.
pub fn chars_to_string(v: &Vec<char>) -> (s: String)
    ensures
        s@ == v@,
{
    let mut s = String::new();
    let mut i: usize = 0;
    while i < v.len()
        invariant
            i <= v@.len(),
            s@ == v@.subrange(0, i as int),
        decreases v@.len() - i,
    {
        push_char(&mut s, v[i]);
        i += 1;
        proof {
            assert(s@ =~= v@.subrange(0, i as int));
        }
    }
    proof {
        assert(v@.subrange(0, v@.len() as int) =~= v@);
    }
    s
}

/// A byte as the character of its code.
pub fn byte_char(b: u8) -> (c: char)
    ensures
        c == ((b as u32) as char),
{
    match char_from_u32(b as u32) {
        Some(c) => {
            proof {
                vstd::utf8::char_u32_cast(c, b as u32);
            }
            c
        },
        None => vstd::pervasive::unreached(),
    }
}

/// The character for one digit value below ten.
pub open spec fn spec_digit(d: int) -> char {
    ((48 + d) as u32) as char
}

/// The decimal digits of `n`, most significant first.
pub open spec fn spec_dec(n: int) -> Seq<char>
    decreases n,
{
    if n < 10 {
        seq![spec_digit(n)]
    } else {
        spec_dec(n / 10).push(spec_digit(n % 10))
    }
}

/// Append the decimal digits of `n` to `out`.
pub fn push_dec(out: &mut Vec<char>, n: u16)
    ensures
        final(out)@ == old(out)@ + spec_dec(n as int),
    decreases n,
{
    if n < 10 {
        let u: u32 = 48 + n as u32;
        let c = match char_from_u32(u) {
            Some(c) => c,
            None => ' ',  // unreachable: the code is ASCII here
        };
        out.push(c);
        proof {
            vstd::utf8::char_u32_cast(c, u);
            assert(out@ =~= old(out)@ + spec_dec(n as int));
        }
    } else {
        push_dec(out, n / 10);
        let u: u32 = 48 + (n % 10) as u32;
        let c = match char_from_u32(u) {
            Some(c) => c,
            None => ' ',  // unreachable: the code is ASCII here
        };
        out.push(c);
        proof {
            vstd::utf8::char_u32_cast(c, u);
            assert(out@ =~= old(out)@ + spec_dec(n as int));
        }
    }
}

/// The decimal digits of `n` as ASCII bytes, most significant first.
pub open spec fn spec_dec_bytes(n: int) -> Seq<u8>
    decreases n,
{
    if n < 10 {
        seq![(48 + n) as u8]
    } else {
        spec_dec_bytes(n / 10).push((48 + n % 10) as u8)
    }
}

/// Append the decimal digits of `n` to `out` as ASCII bytes.
pub fn push_dec_bytes(out: &mut Vec<u8>, n: u32)
    requires
        n <= 0xFFFF,
    ensures
        final(out)@ == old(out)@ + spec_dec_bytes(n as int),
    decreases n,
{
    if n < 10 {
        out.push(48 + n as u8);
        proof {
            assert(out@ =~= old(out)@ + spec_dec_bytes(n as int));
        }
    } else {
        push_dec_bytes(out, n / 10);
        out.push(48 + (n % 10) as u8);
        proof {
            assert(out@ =~= old(out)@ + spec_dec_bytes(n as int));
        }
    }
}

/// The character for one hexadecimal digit value below sixteen, lower case.
pub open spec fn spec_hex_digit(d: int) -> char {
    if d < 10 {
        spec_digit(d)
    } else {
        ((87 + d) as u32) as char
    }
}

/// The two lower-case hexadecimal digits of one byte.
pub open spec fn spec_hex2(b: u8) -> Seq<char> {
    seq![spec_hex_digit(b as int / 16), spec_hex_digit(b as int % 16)]
}

/// Append the two hexadecimal digits of `b` to `out`.
pub fn push_hex2(out: &mut Vec<char>, b: u8)
    ensures
        final(out)@ == old(out)@ + spec_hex2(b),
{
    let hi: u32 = (b / 16) as u32;
    let lo: u32 = (b % 16) as u32;
    let hu: u32 = if hi < 10 {
        48 + hi
    } else {
        87 + hi
    };
    let lu: u32 = if lo < 10 {
        48 + lo
    } else {
        87 + lo
    };
    let hc = match char_from_u32(hu) {
        Some(c) => c,
        None => ' ',  // unreachable: the code is ASCII here
    };
    let lc = match char_from_u32(lu) {
        Some(c) => c,
        None => ' ',  // unreachable: the code is ASCII here
    };
    out.push(hc);
    out.push(lc);
    proof {
        vstd::utf8::char_u32_cast(hc, hu);
        vstd::utf8::char_u32_cast(lc, lu);
        assert(out@ =~= old(out)@ + spec_hex2(b));
    }
}

} // verus!

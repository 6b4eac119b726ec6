//! Lowercase `#rrggbb` rendering and forgiving parsing.
//!
//! Rendering is the only serialization this crate performs.  Parsing
//! never fails hard: any malformed input yields `None` and callers
//! fall back to a built-in default color.

use crate::color::Rgb;
use vstd::prelude::*;
use vstd::string::StrSliceExecFns;
use vstd::string::StringExecFns;

verus! {

/// The lowercase hex digit for a nibble.
pub open spec fn spec_hex_digit(n: int) -> char {
    if n == 0 {
        '0'
    } else if n == 1 {
        '1'
    } else if n == 2 {
        '2'
    } else if n == 3 {
        '3'
    } else if n == 4 {
        '4'
    } else if n == 5 {
        '5'
    } else if n == 6 {
        '6'
    } else if n == 7 {
        '7'
    } else if n == 8 {
        '8'
    } else if n == 9 {
        '9'
    } else if n == 10 {
        'a'
    } else if n == 11 {
        'b'
    } else if n == 12 {
        'c'
    } else if n == 13 {
        'd'
    } else if n == 14 {
        'e'
    } else {
        'f'
    }
}

/// Two lowercase hex digits for one byte.
pub open spec fn spec_hex_byte(v: int) -> Seq<char> {
    seq![spec_hex_digit(v / 16), spec_hex_digit(v % 16)]
}

/// The `#rrggbb` rendering of an RGB triple.
pub open spec fn spec_hex_color(c: Rgb) -> Seq<char> {
    seq!['#'] + spec_hex_byte(c.r as int) + spec_hex_byte(c.g as int) + spec_hex_byte(c.b as int)
}

pub(crate) fn hex_digit_str(n: u8) -> (r: &'static str)
    requires
        n < 16,
    ensures
        r@ == seq![spec_hex_digit(n as int)],
{
    proof {
        reveal_strlit("0");
        reveal_strlit("1");
        reveal_strlit("2");
        reveal_strlit("3");
        reveal_strlit("4");
        reveal_strlit("5");
        reveal_strlit("6");
        reveal_strlit("7");
        reveal_strlit("8");
        reveal_strlit("9");
        reveal_strlit("a");
        reveal_strlit("b");
        reveal_strlit("c");
        reveal_strlit("d");
        reveal_strlit("e");
        reveal_strlit("f");
    }
    let s: &'static str = match n {
        0 => "0",
        1 => "1",
        2 => "2",
        3 => "3",
        4 => "4",
        5 => "5",
        6 => "6",
        7 => "7",
        8 => "8",
        9 => "9",
        10 => "a",
        11 => "b",
        12 => "c",
        13 => "d",
        14 => "e",
        _ => "f",
    };
    proof {
        assert(s@ =~= seq![spec_hex_digit(n as int)]);
    }
    s
}

/// Append one byte as two lowercase hex digits.
fn push_hex_byte(out: &mut String, v: u8)
    ensures
        final(out)@ == old(out)@ + spec_hex_byte(v as int),
{
    out.append(hex_digit_str(v / 16));
    out.append(hex_digit_str(v % 16));
    proof {
        assert(final(out)@ =~= old(out)@ + spec_hex_byte(v as int));
    }
}

/// Render a color as lowercase `#rrggbb`.
pub fn rgb_to_hex(c: &Rgb) -> (r: String)
    ensures
        r@ == spec_hex_color(*c),
{
    let mut out = String::new();
    proof {
        reveal_strlit("#");
    }
    out.append("#");
    push_hex_byte(&mut out, c.r);
    push_hex_byte(&mut out, c.g);
    push_hex_byte(&mut out, c.b);
    proof {
        assert(out@ =~= spec_hex_color(*c));
    }
    out
}

/// Drop every leading `#`.
pub open spec fn spec_strip_hash(s: Seq<char>) -> Seq<char>
    decreases s.len(),
{
    if s.len() > 0 && s[0] == '#' {
        spec_strip_hash(s.skip(1))
    } else {
        s
    }
}

pub open spec fn spec_is_hex_digit(ch: char) -> bool {
    let u = ch as u32;
    (48 <= u <= 57) || (97 <= u <= 102) || (65 <= u <= 70)
}

/// Value of a hex digit, upper or lower case.
pub open spec fn spec_hex_val(ch: char) -> int {
    let u = ch as u32;
    if 48 <= u <= 57 {
        u - 48
    } else if 97 <= u <= 102 {
        u - 87
    } else {
        u - 55
    }
}

fn hex_val(ch: char) -> (r: Option<u32>)
    ensures
        r is Some <==> spec_is_hex_digit(ch),
        r is Some ==> r->0 == spec_hex_val(ch) && r->0 <= 15,
{
    let u = ch as u32;
    if 48 <= u && u <= 57 {
        Some(u - 48)
    } else if 97 <= u && u <= 102 {
        Some(u - 87)
    } else if 65 <= u && u <= 70 {
        Some(u - 55)
    } else {
        None
    }
}

/// What parsing yields: `None` for anything malformed, otherwise the
/// six hex digits after the leading hashes, case-insensitive.  Longer
/// strings are read for their first six digits only.
pub open spec fn spec_parse_hex_color(s: Seq<char>) -> Option<Rgb> {
    let t = spec_strip_hash(s);
    if t.len() < 6 {
        None
    } else if exists|k: int| 0 <= k < 6 && !spec_is_hex_digit(t[k]) {
        None
    } else {
        Some(
            Rgb {
                r: (spec_hex_val(t[0]) * 16 + spec_hex_val(t[1])) as u8,
                g: (spec_hex_val(t[2]) * 16 + spec_hex_val(t[3])) as u8,
                b: (spec_hex_val(t[4]) * 16 + spec_hex_val(t[5])) as u8,
            },
        )
    }
}

proof fn lemma_hex_digit_val(n: int)
    requires
        0 <= n < 16,
    ensures
        spec_is_hex_digit(spec_hex_digit(n)),
        spec_hex_val(spec_hex_digit(n)) == n,
        spec_hex_digit(n) != '#',
{
}

/// Rendering then parsing gives the color back: a scheme's own hex
/// strings always re-parse to the triple they were made from.
pub proof fn lemma_hex_round_trip(c: Rgb)
    ensures
        spec_parse_hex_color(spec_hex_color(c)) == Some(c),
{
    let s = spec_hex_color(c);
    lemma_hex_digit_val(c.r as int / 16);
    lemma_hex_digit_val(c.r as int % 16);
    lemma_hex_digit_val(c.g as int / 16);
    lemma_hex_digit_val(c.g as int % 16);
    lemma_hex_digit_val(c.b as int / 16);
    lemma_hex_digit_val(c.b as int % 16);
    assert(s.len() == 7);
    assert(s[0] == '#');
    assert(s.skip(1).len() == 6);
    assert(s.skip(1)[0] != '#');
    assert(spec_strip_hash(s) == spec_strip_hash(s.skip(1)));
    let t = spec_strip_hash(s);
    assert(t == s.skip(1));
    assert(t[0] == spec_hex_digit(c.r as int / 16));
    assert(t[1] == spec_hex_digit(c.r as int % 16));
    assert(t[2] == spec_hex_digit(c.g as int / 16));
    assert(t[3] == spec_hex_digit(c.g as int % 16));
    assert(t[4] == spec_hex_digit(c.b as int / 16));
    assert(t[5] == spec_hex_digit(c.b as int % 16));
    assert(forall|k: int| 0 <= k < 6 ==> spec_is_hex_digit(#[trigger] t[k]));
    assert(spec_hex_val(t[0]) * 16 + spec_hex_val(t[1]) == c.r);
    assert(spec_hex_val(t[2]) * 16 + spec_hex_val(t[3]) == c.g);
    assert(spec_hex_val(t[4]) * 16 + spec_hex_val(t[5]) == c.b);
}

pub(crate) fn leading_hashes(s: &str) -> (i: usize)
    ensures
        i <= s@.len(),
        spec_strip_hash(s@) == s@.skip(i as int),
{
    let n = s.unicode_len();
    let mut i: usize = 0;
    let mut stop = false;
    proof {
        assert(s@.skip(0) =~= s@);
    }
    while i < n && !stop
        invariant
            0 <= i <= n,
            n == s@.len(),
            spec_strip_hash(s@) == spec_strip_hash(s@.skip(i as int)),
            stop ==> i < n && s@[i as int] != '#',
        decreases n - i, (if stop { 0int } else { 1int }),
    {
        if s.get_char(i) == '#' {
            proof {
                assert(s@.skip(i as int).skip(1) =~= s@.skip(i as int + 1));
            }
            i = i + 1;
        } else {
            stop = true;
        }
    }
    proof {
        if i < n {
            assert(spec_strip_hash(s@.skip(i as int)) == s@.skip(i as int));
        } else {
            assert(s@.skip(i as int) =~= Seq::<char>::empty());
        }
    }
    i
}

/// Parse a `#rrggbb` string; malformed input gives `None`.
pub fn parse_hex_color(s: &str) -> (r: Option<Rgb>)
    ensures
        r == spec_parse_hex_color(s@),
{
    let n = s.unicode_len();
    let i = leading_hashes(s);
    if n - i < 6 {
        return None;
    }
    let v0 = hex_val(s.get_char(i));
    let v1 = hex_val(s.get_char(i + 1));
    let v2 = hex_val(s.get_char(i + 2));
    let v3 = hex_val(s.get_char(i + 3));
    let v4 = hex_val(s.get_char(i + 4));
    let v5 = hex_val(s.get_char(i + 5));
    proof {
        let t = spec_strip_hash(s@);
        assert(t[0] == s@[i as int]);
        assert(t[1] == s@[i as int + 1]);
        assert(t[2] == s@[i as int + 2]);
        assert(t[3] == s@[i as int + 3]);
        assert(t[4] == s@[i as int + 4]);
        assert(t[5] == s@[i as int + 5]);
    }
    match (v0, v1, v2, v3, v4, v5) {
        (Some(a), Some(b), Some(c), Some(d), Some(e), Some(f)) => Some(
            Rgb { r: (a * 16 + b) as u8, g: (c * 16 + d) as u8, b: (e * 16 + f) as u8 },
        ),
        _ => None,
    }
}

} // verus!

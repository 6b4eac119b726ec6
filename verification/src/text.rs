//! Plain text helpers: character-exact string comparison, first-match
//! substring search and small decimal rendering.  The config-section
//! patching and the style registry are built on these.

use crate::hex::{hex_digit_str, spec_hex_digit};
use vstd::prelude::*;
use vstd::string::StrSliceExecFns;
use vstd::string::StringExecFns;

verus! {

/// Character-for-character string equality.
pub fn str_eq(a: &str, b: &str) -> (r: bool)
    ensures
        r == (a@ == b@),
{
    let na = a.unicode_len();
    let nb = b.unicode_len();
    if na != nb {
        proof {
            if a@ == b@ {
                assert(a@.len() == b@.len());
            }
        }
        return false;
    }
    let mut i: usize = 0;
    while i < na
        invariant
            0 <= i <= na,
            na == a@.len(),
            na == b@.len(),
            forall|k: int| 0 <= k < i ==> a@[k] == b@[k],
        decreases na - i,
    {
        if a.get_char(i) != b.get_char(i) {
            proof {
                if a@ == b@ {
                    assert(a@[i as int] == b@[i as int]);
                }
            }
            return false;
        }
        i = i + 1;
    }
    proof {
        assert(a@ =~= b@);
    }
    true
}

/// `m` occurs in `c` starting at position `j`.
pub open spec fn spec_matches_at(c: Seq<char>, m: Seq<char>, j: int) -> bool {
    0 <= j && j + m.len() <= c.len() && (forall|t: int| 0 <= t < m.len() ==> c[j + t] == m[t])
}

fn matches_at(content: &str, marker: &str, j: usize) -> (r: bool)
    requires
        j + marker@.len() <= content@.len(),
        content@.len() <= usize::MAX,
    ensures
        r == spec_matches_at(content@, marker@, j as int),
{
    let m = marker.unicode_len();
    let mut k: usize = 0;
    while k < m
        invariant
            0 <= k <= m,
            m == marker@.len(),
            j + m <= content@.len(),
            content@.len() <= usize::MAX,
            forall|t: int| 0 <= t < k ==> content@[j + t] == marker@[t],
        decreases m - k,
    {
        if content.get_char(j + k) != marker.get_char(k) {
            return false;
        }
        k = k + 1;
    }
    true
}

/// Position of the first occurrence of `m` in `c` at or after `j`.
pub open spec fn spec_find_from(c: Seq<char>, m: Seq<char>, j: int) -> Option<int>
    decreases c.len() - j,
        when 0 <= j <= c.len()
{
    if j + m.len() > c.len() {
        None
    } else if spec_matches_at(c, m, j) {
        Some(j)
    } else {
        spec_find_from(c, m, j + 1)
    }
}

/// First-occurrence substring search at or after `from`, by
/// characters.
pub fn find_marker_from(content: &str, marker: &str, from: usize) -> (r: Option<usize>)
    requires
        from <= content@.len(),
    ensures
        (r is Some) == (spec_find_from(content@, marker@, from as int) is Some),
        r is Some ==> Some(r->0 as int) == spec_find_from(content@, marker@, from as int)
            && from <= r->0 && r->0 + marker@.len() <= content@.len(),
{
    let n = content.unicode_len();
    let m = marker.unicode_len();
    if m > n - from {
        return None;
    }
    if m == 0 {
        proof {
            assert(spec_matches_at(content@, marker@, from as int));
        }
        return Some(from);
    }
    let mut j: usize = from;
    while j <= n - m
        invariant
            1 <= m,
            from + m <= n,
            n == content@.len(),
            m == marker@.len(),
            from <= j <= n - m + 1,
            spec_find_from(content@, marker@, from as int) == spec_find_from(
                content@,
                marker@,
                j as int,
            ),
        decreases n - m + 1 - j,
    {
        if matches_at(content, marker, j) {
            return Some(j);
        }
        j = j + 1;
    }
    None
}

/// Decimal rendering of a value below 100.
pub open spec fn spec_dec_u8(v: int) -> Seq<char> {
    if v < 10 {
        seq![spec_hex_digit(v)]
    } else {
        seq![spec_hex_digit(v / 10), spec_hex_digit(v % 10)]
    }
}

/// Append a small decimal number.
pub fn push_dec_u8(out: &mut String, v: u8)
    requires
        v < 100,
    ensures
        final(out)@ == old(out)@ + spec_dec_u8(v as int),
{
    if v < 10 {
        out.append(hex_digit_str(v));
        proof {
            assert(final(out)@ =~= old(out)@ + spec_dec_u8(v as int));
        }
    } else {
        out.append(hex_digit_str(v / 10));
        out.append(hex_digit_str(v % 10));
        proof {
            assert(final(out)@ =~= old(out)@ + spec_dec_u8(v as int));
        }
    }
}

} // verus!

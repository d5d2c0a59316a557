//! Verified text helpers: string equality, ASCII case-insensitive prefix
//! tests after leading-whitespace trimming, and decimal rendering of
//! integers. These carry the query-classification rules of the adapters.

use vstd::prelude::*;
use vstd::string::*;

verus! {

/// String equality by character comparison.
pub fn str_eq(a: &str, b: &str) -> (r: bool)
    ensures
        r == (a@ == b@),
{
    let alen = a.unicode_len();
    let blen = b.unicode_len();
    if alen != blen {
        return false;
    }
    let mut i: usize = 0;
    while i < alen
        invariant
            i <= alen,
            alen == a@.len(),
            blen == b@.len(),
            alen == blen,
            forall|j: int| 0 <= j < i ==> a@[j] == b@[j],
        decreases alen - i,
    {
        if a.get_char(i) != b.get_char(i) {
            return false;
        }
        i += 1;
    }
    proof {
        assert(a@ =~= b@);
    }
    true
}

/// Whether `c` is an ASCII upper-case letter.
pub open spec fn is_ascii_upper(c: char) -> bool {
    65 <= c as u32 && c as u32 <= 90
}

/// Case-insensitive character equality, folding only the ASCII letters.
pub open spec fn ascii_eq_ci(a: char, b: char) -> bool {
    ||| a == b
    ||| (is_ascii_upper(a) && a as u32 + 32 == b as u32)
    ||| (is_ascii_upper(b) && b as u32 + 32 == a as u32)
}

/// Compares two characters up to ASCII case.
pub fn eq_ci(a: char, b: char) -> (r: bool)
    ensures
        r == ascii_eq_ci(a, b),
{
    if a == b {
        true
    } else {
        let au = a as u32;
        let bu = b as u32;
        (65 <= au && au <= 90 && au + 32 == bu) || (65 <= bu && bu <= 90 && bu + 32 == au)
    }
}

/// The whitespace characters that leading-whitespace trimming removes:
/// the Unicode white-space set.
pub open spec fn is_ws(c: char) -> bool {
    ||| c == ' '
    ||| c == '\t'
    ||| c == '\n'
    ||| c as u32 == 0x0B
    ||| c as u32 == 0x0C
    ||| c == '\r'
    ||| c as u32 == 0x85
    ||| c as u32 == 0xA0
    ||| c as u32 == 0x1680
    ||| (0x2000 <= c as u32 && c as u32 <= 0x200A)
    ||| c as u32 == 0x2028
    ||| c as u32 == 0x2029
    ||| c as u32 == 0x202F
    ||| c as u32 == 0x205F
    ||| c as u32 == 0x3000
}

/// Whether `c` is in the Unicode white-space set.
pub fn is_ws_char(c: char) -> (r: bool)
    ensures
        r == is_ws(c),
{
    let u = c as u32;
    u == 0x20 || u == 0x09 || u == 0x0A || u == 0x0B || u == 0x0C || u == 0x0D || u == 0x85
        || u == 0xA0 || u == 0x1680 || (0x2000 <= u && u <= 0x200A) || u == 0x2028 || u == 0x2029
        || u == 0x202F || u == 0x205F || u == 0x3000
}

/// What remains of `s` after removing its leading whitespace.
pub open spec fn trimmed(s: Seq<char>) -> Seq<char>
    decreases s.len(),
{
    if s.len() == 0 || !is_ws(s[0]) {
        s
    } else {
        trimmed(s.drop_first())
    }
}

/// Whether `s` begins with `kw` up to ASCII case.
pub open spec fn ci_starts_with(s: Seq<char>, kw: Seq<char>) -> bool {
    s.len() >= kw.len() && forall|i: int| 0 <= i < kw.len() ==> ascii_eq_ci(s[i], kw[i])
}

/// Whether `s` begins with exactly the prefix `p`.
pub open spec fn has_prefix(s: Seq<char>, p: Seq<char>) -> bool {
    s.len() >= p.len() && s.subrange(0, p.len() as int) == p
}

/// Index of the first non-whitespace character of `s` (its length when
/// all of `s` is whitespace), with the suffix there equal to `trimmed`.
pub fn skip_ws_index(s: &str) -> (i: usize)
    ensures
        i <= s@.len(),
        trimmed(s@) == s@.skip(i as int),
        forall|j: int| 0 <= j < i ==> is_ws(s@[j]),
{
    let len = s.unicode_len();
    let mut i: usize = 0;
    proof {
        assert(s@.skip(0) =~= s@);
    }
    while i < len
        invariant
            i <= len,
            len == s@.len(),
            trimmed(s@) == trimmed(s@.skip(i as int)),
            forall|j: int| 0 <= j < i ==> is_ws(s@[j]),
        decreases len - i,
    {
        if !is_ws_char(s.get_char(i)) {
            proof {
                assert(trimmed(s@.skip(i as int)) == s@.skip(i as int));
            }
            return i;
        }
        proof {
            assert(s@.skip(i as int).drop_first() =~= s@.skip(i as int + 1));
        }
        i += 1;
    }
    proof {
        assert(s@.skip(len as int) =~= Seq::<char>::empty());
        assert(trimmed(s@.skip(len as int)) =~= s@.skip(len as int));
    }
    len
}

/// Whether the suffix of `s` starting at `start` begins with `kw`, up to
/// ASCII case.
pub fn ci_has_prefix_at(s: &str, start: usize, kw: &str) -> (r: bool)
    requires
        start <= s@.len(),
    ensures
        r == ci_starts_with(s@.skip(start as int), kw@),
{
    let slen = s.unicode_len();
    let klen = kw.unicode_len();
    if slen - start < klen {
        return false;
    }
    let mut i: usize = 0;
    while i < klen
        invariant
            i <= klen,
            klen == kw@.len(),
            slen == s@.len(),
            start <= slen,
            slen - start >= klen,
            forall|j: int| 0 <= j < i ==> ascii_eq_ci(s@.skip(start as int)[j], kw@[j]),
        decreases klen - i,
    {
        if !eq_ci(s.get_char(start + i), kw.get_char(i)) {
            return false;
        }
        i += 1;
    }
    true
}

/// The decimal digit character for `d`.
pub open spec fn digit_char(d: int) -> char {
    if d == 0 {
        '0'
    } else if d == 1 {
        '1'
    } else if d == 2 {
        '2'
    } else if d == 3 {
        '3'
    } else if d == 4 {
        '4'
    } else if d == 5 {
        '5'
    } else if d == 6 {
        '6'
    } else if d == 7 {
        '7'
    } else if d == 8 {
        '8'
    } else {
        '9'
    }
}

/// The digits of `n` in decimal, most significant first; empty for zero.
pub open spec fn dec_digits(n: int) -> Seq<char>
    decreases n,
{
    if n <= 0 {
        Seq::empty()
    } else {
        dec_digits(n / 10).push(digit_char(n % 10))
    }
}

/// The decimal rendering of `n`.
pub open spec fn dec_string(n: int) -> Seq<char> {
    if n == 0 {
        seq!['0']
    } else {
        dec_digits(n)
    }
}

fn digit_str(d: u64) -> (r: &'static str)
    requires
        d < 10,
    ensures
        r@ =~= seq![digit_char(d as int)],
{
    proof {
        reveal_strlit("0");
        reveal_strlit("1");
        reveal_strlit("2");
        reveal_strlit("3");
        reveal_strlit("4");
        reveal_strlit("5");
        reveal_strlit("6");
        reveal_strlit("7");
        reveal_strlit("8");
        reveal_strlit("9");
    }
    match d {
        0 => "0",
        1 => "1",
        2 => "2",
        3 => "3",
        4 => "4",
        5 => "5",
        6 => "6",
        7 => "7",
        8 => "8",
        _ => "9",
    }
}

/// Renders `n` in decimal.
pub fn u64_to_string(n: u64) -> (r: String)
    ensures
        r@ == dec_string(n as int),
{
    if n == 0 {
        proof {
            reveal_strlit("0");
            assert("0"@ =~= seq!['0']);
        }
        return "0".to_owned();
    }
    let mut rest = n;
    let mut r = String::new();
    while rest > 0
        invariant
            dec_digits(n as int) =~= dec_digits(rest as int) + r@,
        decreases rest,
    {
        let d = digit_str(rest % 10);
        let r2 = d.to_owned().concat(r.as_str());
        proof {
            assert(dec_digits(rest as int) =~= dec_digits(rest as int / 10) + seq![
                digit_char(rest as int % 10),
            ]);
            assert(dec_digits(rest as int / 10) + seq![digit_char(rest as int % 10)] + r@
                =~= dec_digits(rest as int / 10) + (seq![digit_char(rest as int % 10)] + r@));
        }
        r = r2;
        rest = rest / 10;
    }
    proof {
        assert(dec_digits(n as int) =~= r@);
    }
    r
}

} // verus!

use vstd::prelude::*;
use vstd::string::StrSliceExecFns;

verus! {

pub open spec fn is_digit(c: char) -> bool {
    '0' <= c && c <= '9'
}

pub open spec fn all_digits(s: Seq<char>) -> bool {
    forall|k: int| 0 <= k < s.len() ==> is_digit(#[trigger] s[k])
}

/// The value of a string of decimal digits.
pub open spec fn digits_value(s: Seq<char>) -> int
    decreases s.len(),
{
    if s.len() == 0 {
        0
    } else {
        digits_value(s.drop_last()) * 10 + (s.last() as int - '0' as int)
    }
}

/// The integer that `s` writes in decimal, after an optional `+` or `-`.
pub open spec fn int_value(s: Seq<char>) -> Option<int> {
    if s.len() > 0 && (s[0] == '+' || s[0] == '-') {
        let rest = s.drop_first();
        if rest.len() > 0 && all_digits(rest) {
            Some(if s[0] == '-' { -digits_value(rest) } else { digits_value(rest) })
        } else {
            None
        }
    } else if s.len() > 0 && all_digits(s) {
        Some(digits_value(s))
    } else {
        None
    }
}

/// The non-negative integer that `s` writes in decimal, after an optional `+`.
pub open spec fn uint_value(s: Seq<char>) -> Option<int> {
    if s.len() > 0 && s[0] == '-' {
        None
    } else {
        int_value(s)
    }
}

/// The `i32` that `s` writes, as `str::parse::<i32>` reads it.
pub open spec fn i32_of(s: Seq<char>) -> Option<i32> {
    match int_value(s) {
        Some(v) => if i32::MIN <= v <= i32::MAX { Some(v as i32) } else { None },
        None => None,
    }
}

/// The `usize` that `s` writes, as `str::parse::<usize>` reads it.
pub open spec fn usize_of(s: Seq<char>) -> Option<usize> {
    match uint_value(s) {
        Some(v) => if v <= usize::MAX { Some(v as usize) } else { None },
        None => None,
    }
}

pub const DIGITS_CAP: u128 = 0x1_0000_0000_0000_0000;

proof fn lemma_digits_nonneg(s: Seq<char>)
    requires
        all_digits(s),
    ensures
        digits_value(s) >= 0,
    decreases s.len(),
{
    if s.len() > 0 {
        lemma_digits_nonneg(s.drop_last());
    }
}

/// The digits of `s` from `from` on, read as a number and capped at `DIGITS_CAP`;
/// `None` unless they are one or more decimal digits.
fn digits_capped(s: &str, from: usize) -> (r: Option<u128>)
    requires
        from <= s@.len(),
    ensures
        r is Some <==> (from < s@.len() && all_digits(s@.subrange(from as int, s@.len() as int))),
        r matches Some(v) ==> v == if digits_value(s@.subrange(from as int, s@.len() as int))
            < DIGITS_CAP {
            digits_value(s@.subrange(from as int, s@.len() as int))
        } else {
            DIGITS_CAP as int
        },
{
    let n = s.unicode_len();
    if from >= n {
        return None;
    }
    let mut acc: u128 = 0;
    let mut i: usize = from;
    proof {
        assert(s@.subrange(from as int, from as int) =~= Seq::<char>::empty());
    }
    while i < n
        invariant
            n == s@.len(),
            from <= i <= n,
            all_digits(s@.subrange(from as int, i as int)),
            acc == if digits_value(s@.subrange(from as int, i as int)) < DIGITS_CAP {
                digits_value(s@.subrange(from as int, i as int))
            } else {
                DIGITS_CAP as int
            },
        decreases n - i,
    {
        let c = s.get_char(i);
        let ghost pre = s@.subrange(from as int, i as int);
        let ghost cur = s@.subrange(from as int, i as int + 1);
        if !('0' <= c && c <= '9') {
            assert(cur[i - from] == c);
            return None;
        }
        proof {
            assert(cur.drop_last() =~= pre);
            assert(cur.last() == c);
            lemma_digits_nonneg(pre);
            assert(all_digits(cur));
        }
        let d = (c as u32 - '0' as u32) as u128;
        if acc < DIGITS_CAP {
            let next = acc * 10 + d;
            acc = if next < DIGITS_CAP { next } else { DIGITS_CAP };
        } else {
            proof {
                assert(digits_value(cur) >= digits_value(pre) * 10) by (nonlinear_arith)
                    requires digits_value(cur) == digits_value(pre) * 10 + (c as int - '0' as int),
                        c as int >= '0' as int, digits_value(pre) >= 0;
            }
        }
        i = i + 1;
    }
    proof {
        assert(s@.subrange(from as int, n as int) =~= s@.subrange(from as int, s@.len() as int));
    }
    Some(acc)
}

/// Reads `s` as a decimal `i32`, with an optional sign.
pub fn parse_i32(s: &str) -> (r: Option<i32>)
    ensures
        r == i32_of(s@),
{
    let n = s.unicode_len();
    if n == 0 {
        return None;
    }
    let c = s.get_char(0);
    let signed = c == '+' || c == '-';
    let from: usize = if signed { 1 } else { 0 };
    proof {
        assert(s@.subrange(1, s@.len() as int) =~= s@.drop_first());
        assert(s@.subrange(0, s@.len() as int) =~= s@);
    }
    match digits_capped(s, from) {
        None => None,
        Some(v) => {
            if c == '-' {
                if v <= 0x8000_0000 {
                    Some((0 - (v as i64)) as i32)
                } else {
                    None
                }
            } else if v <= 0x7fff_ffff {
                Some(v as i32)
            } else {
                None
            }
        },
    }
}

/// Reads `s` as a decimal `usize`, with an optional `+`.
pub fn parse_usize(s: &str) -> (r: Option<usize>)
    ensures
        r == usize_of(s@),
{
    let n = s.unicode_len();
    if n == 0 {
        return None;
    }
    let c = s.get_char(0);
    if c == '-' {
        return None;
    }
    let from: usize = if c == '+' { 1 } else { 0 };
    proof {
        assert(s@.subrange(1, s@.len() as int) =~= s@.drop_first());
        assert(s@.subrange(0, s@.len() as int) =~= s@);
    }
    match digits_capped(s, from) {
        None => None,
        Some(v) => {
            if v <= usize::MAX as u128 {
                Some(v as usize)
            } else {
                None
            }
        },
    }
}

} // verus!

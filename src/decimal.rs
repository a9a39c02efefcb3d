//! Decimal numbers as the store transmits them: an optional sign, then one
//! or more ASCII digits, in range for the target type.
use vstd::prelude::*;

verus! {

pub open spec fn is_digit(c: char) -> bool {
    '0' <= c && c <= '9'
}

pub open spec fn all_digits(s: Seq<char>) -> bool {
    forall|i: int| 0 <= i < s.len() ==> is_digit(#[trigger] s[i])
}

/// Value of a run of digits.
pub open spec fn digits_value(s: Seq<char>) -> nat
    decreases s.len(),
{
    if s.len() == 0 {
        0
    } else {
        (digits_value(s.drop_last()) * 10 + (s.last() as u32 - '0' as u32)) as nat
    }
}

/// A run of one or more digits whose value is at most `limit`.
pub open spec fn digits_within(s: Seq<char>, limit: int) -> bool {
    s.len() > 0 && all_digits(s) && digits_value(s) <= limit
}

/// `s` without a leading '+'.
pub open spec fn unsigned_part(s: Seq<char>) -> Seq<char> {
    if s.len() > 0 && s[0] == '+' {
        s.drop_first()
    } else {
        s
    }
}

/// The `u32` that `s` writes: an optional '+' and digits.
pub open spec fn decimal_u32(s: Seq<char>) -> Option<u32> {
    let t = unsigned_part(s);
    if digits_within(t, u32::MAX as int) {
        Some(digits_value(t) as u32)
    } else {
        None
    }
}

/// The `i32` that `s` writes: an optional '+' or '-' and digits.
pub open spec fn decimal_i32(s: Seq<char>) -> Option<i32> {
    if s.len() > 0 && s[0] == '-' {
        let t = s.drop_first();
        if digits_within(t, 0x8000_0000) {
            Some((-digits_value(t)) as i32)
        } else {
            None
        }
    } else {
        let t = unsigned_part(s);
        if digits_within(t, i32::MAX as int) {
            Some(digits_value(t) as i32)
        } else {
            None
        }
    }
}

proof fn lemma_prefix_value_bounded(t: Seq<char>, j: int)
    requires
        all_digits(t),
        0 <= j <= t.len(),
    ensures
        digits_value(t.subrange(0, j)) <= digits_value(t),
    decreases t.len() - j,
{
    if j < t.len() {
        lemma_prefix_value_bounded(t, j + 1);
        let p = t.subrange(0, j + 1);
        assert(p.drop_last() =~= t.subrange(0, j));
        assert(is_digit(p.last()));
    } else {
        assert(t.subrange(0, j) =~= t);
    }
}

/// The value of the digits of `s` from position `from` on, where there is
/// at least one, all are digits, and the value is at most `limit`.
fn digits_from(s: &str, from: usize, limit: u64) -> (r: Option<u64>)
    requires
        limit <= 0x1_0000_0000,
    ensures
        from <= s@.len() && digits_within(s@.subrange(from as int, s@.len() as int), limit as int)
            ==> r == Some(digits_value(s@.subrange(from as int, s@.len() as int)) as u64),
        !(from <= s@.len() && digits_within(s@.subrange(from as int, s@.len() as int), limit as int))
            ==> r is None,
{
    let n = s.unicode_len();
    if from >= n {
        return None;
    }
    let ghost t = s@.subrange(from as int, n as int);
    let mut acc: u64 = 0;
    let mut i: usize = from;
    while i < n
        invariant
            from < n,
            n == s@.len(),
            from <= i <= n,
            t == s@.subrange(from as int, n as int),
            limit <= 0x1_0000_0000,
            acc <= limit,
            all_digits(t.subrange(0, i - from)),
            acc as int == digits_value(t.subrange(0, i - from)),
        decreases n - i,
    {
        let c = s.get_char(i);
        assert(t[i - from] == c);
        if !('0' <= c && c <= '9') {
            return None;
        }
        let d = (c as u32 - '0' as u32) as u64;
        let ghost p = t.subrange(0, i - from + 1);
        assert(p.drop_last() =~= t.subrange(0, i - from));
        assert(p.last() == c);
        acc = acc * 10 + d;
        i = i + 1;
        if acc > limit {
            proof {
                if all_digits(t) {
                    lemma_prefix_value_bounded(t, i - from);
                }
            }
            return None;
        }
    }
    assert(t.subrange(0, n - from) =~= t);
    Some(acc)
}

/// `s` read as a `u32`, as std's `str::parse::<u32>` reads it.
pub fn parse_u32(s: &str) -> (r: Option<u32>)
    ensures
        r == decimal_u32(s@),
{
    let n = s.unicode_len();
    let from: usize = if n > 0 && s.get_char(0) == '+' {
        1
    } else {
        0
    };
    assert(s@.subrange(from as int, n as int) =~= unsigned_part(s@));
    match digits_from(s, from, 0xFFFF_FFFF) {
        Some(v) => Some(v as u32),
        None => None,
    }
}

/// `s` read as an `i32`, as std's `str::parse::<i32>` reads it.
pub fn parse_i32(s: &str) -> (r: Option<i32>)
    ensures
        r == decimal_i32(s@),
{
    let n = s.unicode_len();
    if n > 0 && s.get_char(0) == '-' {
        assert(s@.subrange(1, n as int) =~= s@.drop_first());
        match digits_from(s, 1, 0x8000_0000) {
            Some(v) => Some((0 - v as i64) as i32),
            None => None,
        }
    } else {
        let from: usize = if n > 0 && s.get_char(0) == '+' {
            1
        } else {
            0
        };
        assert(s@.subrange(from as int, n as int) =~= unsigned_part(s@));
        match digits_from(s, from, 0x7FFF_FFFF) {
            Some(v) => Some(v as i32),
            None => None,
        }
    }
}

} // verus!

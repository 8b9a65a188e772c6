//! Integers read from text.
use crate::text::chars_of;
use vstd::prelude::*;

verus! {

pub open spec fn is_digit(c: char) -> bool {
    '0' <= c <= '9'
}

pub open spec fn all_digits(s: Seq<char>) -> bool {
    forall|i: int| 0 <= i < s.len() ==> is_digit(#[trigger] s[i])
}

/// The number that decimal digits stand for.
pub open spec fn digits_value(s: Seq<char>) -> nat
    decreases s.len(),
{
    if s.len() == 0 {
        0
    } else {
        digits_value(s.drop_last()) * 10 + (s.last() as nat - '0' as nat) as nat
    }
}

/// The number that a non-empty run of digits stands for.
pub open spec fn magnitude(s: Seq<char>) -> Option<nat> {
    if s.len() > 0 && all_digits(s) {
        Some(digits_value(s))
    } else {
        None
    }
}

/// A decimal number with an optional plus sign.
pub open spec fn unsigned_number(s: Seq<char>) -> Option<nat> {
    if s.len() > 0 && s[0] == '+' {
        magnitude(s.skip(1))
    } else {
        magnitude(s)
    }
}

/// A decimal number with an optional sign.
pub open spec fn signed_number(s: Seq<char>) -> Option<int> {
    if s.len() > 0 && s[0] == '-' {
        match magnitude(s.skip(1)) {
            Some(n) => Some(-n),
            None => None,
        }
    } else {
        match unsigned_number(s) {
            Some(n) => Some(n as int),
            None => None,
        }
    }
}

/// Reads digits from `from` on, up to the largest `u64`.
fn parse_magnitude(chars: &Vec<char>, from: usize) -> (n: Option<u64>)
    requires
        from <= chars@.len(),
    ensures
        n == (match magnitude(chars@.skip(from as int)) {
            Some(m) => if m <= u64::MAX {
                Some(m as u64)
            } else {
                None
            },
            None => None,
        }),
{
    let ghost all = chars@.skip(from as int);
    if from >= chars.len() {
        return None;
    }
    let mut i: usize = from;
    let mut n: u64 = 0;
    let mut fits: bool = true;
    while i < chars.len()
        invariant
            from <= i <= chars@.len(),
            all == chars@.skip(from as int),
            forall|k: int| 0 <= k < i - from ==> is_digit(#[trigger] all[k]),
            fits ==> n == digits_value(all.take(i - from)),
            !fits ==> digits_value(all.take(i - from)) > u64::MAX,
        decreases chars@.len() - i,
    {
        let c: char = chars[i];
        assert(c == all[i - from]);
        if c < '0' || c > '9' {
            assert(!is_digit(all[i - from]));
            return None;
        }
        let d: u64 = (c as u64) - 48;
        proof {
            assert(all.take(i - from + 1).drop_last() =~= all.take(i - from));
            assert(all.take(i - from + 1).last() == c);
        }
        if fits {
            match n.checked_mul(10) {
                Some(tens) => match tens.checked_add(d) {
                    Some(sum) => {
                        n = sum;
                    },
                    None => {
                        fits = false;
                    },
                },
                None => {
                    fits = false;
                },
            }
        }
        i += 1;
    }
    assert(all.take(i - from) =~= all);
    if fits {
        Some(n)
    } else {
        None
    }
}

/// Reads an unsigned number: digits after an optional plus sign.
pub fn parse_u64(s: &str) -> (n: Option<u64>)
    ensures
        n == (match unsigned_number(s@) {
            Some(m) => if m <= u64::MAX {
                Some(m as u64)
            } else {
                None
            },
            None => None,
        }),
{
    let chars: Vec<char> = chars_of(s);
    if chars.len() > 0 && chars[0] == '+' {
        parse_magnitude(&chars, 1)
    } else {
        assert(chars@.skip(0) =~= s@);
        parse_magnitude(&chars, 0)
    }
}

/// Reads an unsigned number that fits in `usize`.
pub fn parse_usize(s: &str) -> (n: Option<usize>)
    ensures
        n == (match unsigned_number(s@) {
            Some(m) => if m <= usize::MAX {
                Some(m as usize)
            } else {
                None
            },
            None => None,
        }),
{
    match parse_u64(s) {
        Some(n) => if n <= usize::MAX as u64 {
            Some(n as usize)
        } else {
            None
        },
        None => None,
    }
}

/// Reads a signed number: digits after an optional sign.
pub fn parse_i64(s: &str) -> (n: Option<i64>)
    ensures
        n == (match signed_number(s@) {
            Some(m) => if i64::MIN <= m <= i64::MAX {
                Some(m as i64)
            } else {
                None
            },
            None => None,
        }),
{
    let chars: Vec<char> = chars_of(s);
    if chars.len() > 0 && chars[0] == '-' {
        match parse_magnitude(&chars, 1) {
            Some(n) => if n < 0x8000_0000_0000_0000 {
                Some(-(n as i64))
            } else if n == 0x8000_0000_0000_0000 {
                Some(i64::MIN)
            } else {
                None
            },
            None => None,
        }
    } else {
        match parse_u64(s) {
            Some(n) => if n <= i64::MAX as u64 {
                Some(n as i64)
            } else {
                None
            },
            None => None,
        }
    }
}

} // verus!

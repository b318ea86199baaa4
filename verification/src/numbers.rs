//! Reading and writing decimal numbers as the standard library does.
use vstd::prelude::*;

verus! {

/// The value of an ASCII decimal digit.
pub open spec fn dec_char_value(c: char) -> Option<int> {
    if '0' <= c <= '9' {
        Some(c as int - 48)
    } else {
        None
    }
}

/// The number the decimal digits spell, if they all are digits.
pub open spec fn dec_digits_value(d: Seq<char>) -> Option<int>
    decreases d.len(),
{
    if d.len() == 0 {
        Some(0)
    } else {
        match (dec_digits_value(d.drop_last()), dec_char_value(d.last())) {
            (Some(a), Some(b)) => Some(a * 10 + b),
            _ => None,
        }
    }
}

/// What `str::parse::<u32>` reads: an optional `+` and at least one
/// decimal digit, the value fitting in 32 bits.
pub open spec fn parsed_u32(s: Seq<char>) -> Option<u32> {
    if s.len() == 0 {
        None
    } else {
        let d = if s[0] == '+' {
            s.drop_first()
        } else {
            s
        };
        if d.len() == 0 {
            None
        } else {
            match dec_digits_value(d) {
                Some(v) => if v <= u32::MAX {
                    Some(v as u32)
                } else {
                    None
                },
                None => None,
            }
        }
    }
}

/// What `str::parse::<isize>` reads: an optional sign and at least one
/// decimal digit, the value fitting in an `isize`.
pub open spec fn parsed_isize(s: Seq<char>) -> Option<isize> {
    if s.len() == 0 {
        None
    } else {
        let neg = s[0] == '-';
        let d = if s[0] == '+' || s[0] == '-' {
            s.drop_first()
        } else {
            s
        };
        if d.len() == 0 {
            None
        } else {
            match dec_digits_value(d) {
                Some(v) => {
                    let x = if neg {
                        -v
                    } else {
                        v
                    };
                    if isize::MIN <= x <= isize::MAX {
                        Some(x as isize)
                    } else {
                        None
                    }
                },
                None => None,
            }
        }
    }
}

/// Values of digit strings never shrink as digits are added, and are not
/// negative.
proof fn lemma_dec_digits_grow(d: Seq<char>, k: int)
    requires
        0 <= k <= d.len(),
        dec_digits_value(d) is Some,
    ensures
        dec_digits_value(d.take(k)) is Some,
        0 <= dec_digits_value(d.take(k)).unwrap() <= dec_digits_value(d).unwrap(),
    decreases d.len() - k,
{
    if k < d.len() {
        lemma_dec_digits_grow(d.drop_last(), k);
        assert(d.drop_last().take(k) =~= d.take(k));
        lemma_dec_digits_nonneg(d.drop_last());
    } else {
        assert(d.take(k) =~= d);
        lemma_dec_digits_nonneg(d);
    }
}

/// Values of digit strings are not negative.
proof fn lemma_dec_digits_nonneg(d: Seq<char>)
    requires
        dec_digits_value(d) is Some,
    ensures
        dec_digits_value(d).unwrap() >= 0,
    decreases d.len(),
{
    if d.len() > 0 {
        lemma_dec_digits_nonneg(d.drop_last());
    }
}

/// The value of the digits `s[start..]` when they all are digits and it is
/// at most `limit`; nothing otherwise.
fn digits_up_to(s: &Vec<char>, start: usize, limit: u64) -> (r: Option<u64>)
    requires
        start <= s@.len(),
    ensures
        r is Some <==> (dec_digits_value(s@.skip(start as int)) is Some && dec_digits_value(
            s@.skip(start as int),
        ).unwrap() <= limit),
        r matches Some(v) ==> v == dec_digits_value(s@.skip(start as int)).unwrap(),
{
    let ghost d = s@.skip(start as int);
    let mut acc: u64 = 0;
    let mut i: usize = start;
    assert(d.take(0) =~= Seq::<char>::empty());
    while i < s.len()
        invariant
            start <= i <= s@.len(),
            d == s@.skip(start as int),
            dec_digits_value(d.take(i - start)) == Some(acc as int),
            acc <= limit,
        decreases s@.len() - i,
    {
        assert(d.take(i + 1 - start).drop_last() =~= d.take(i - start));
        assert(d.take(i + 1 - start).last() == s@[i as int]);
        let c = s[i];
        if '0' <= c && c <= '9' {
            let b = (c as u32 - 48) as u64;
            let next: u128 = acc as u128 * 10 + b as u128;
            if next > limit as u128 {
                proof {
                    if dec_digits_value(d) is Some {
                        lemma_dec_digits_grow(d, i + 1 - start);
                    }
                }
                return None;
            }
            acc = next as u64;
        } else {
            proof {
                if dec_digits_value(d) is Some {
                    lemma_dec_digits_grow(d, i + 1 - start);
                }
            }
            return None;
        }
        i += 1;
    }
    assert(d.take(i - start) =~= d);
    Some(acc)
}

/// Reads a `u32` as `str::parse` does.
pub fn parse_u32(s: &Vec<char>) -> (r: Option<u32>)
    ensures
        r == parsed_u32(s@),
{
    if s.len() == 0 {
        return None;
    }
    let start: usize = if s[0] == '+' {
        1
    } else {
        0
    };
    assert(s@.skip(start as int) =~= (if s@[0] == '+' {
        s@.drop_first()
    } else {
        s@
    }));
    if start >= s.len() {
        return None;
    }
    match digits_up_to(s, start, 0xFFFF_FFFF) {
        Some(v) => Some(v as u32),
        None => None,
    }
}

/// Reads an `isize` as `str::parse` does.
pub fn parse_isize(s: &Vec<char>) -> (r: Option<isize>)
    ensures
        r == parsed_isize(s@),
{
    if s.len() == 0 {
        return None;
    }
    let neg = s[0] == '-';
    let start: usize = if s[0] == '+' || s[0] == '-' {
        1
    } else {
        0
    };
    assert(s@.skip(start as int) =~= (if s@[0] == '+' || s@[0] == '-' {
        s@.drop_first()
    } else {
        s@
    }));
    if start >= s.len() {
        return None;
    }
    let limit: u64 = if neg {
        isize::MAX as u64 + 1
    } else {
        isize::MAX as u64
    };
    match digits_up_to(s, start, limit) {
        Some(v) => {
            if neg {
                if v == isize::MAX as u64 + 1 {
                    Some(isize::MIN)
                } else {
                    Some(-(v as isize))
                }
            } else {
                Some(v as isize)
            }
        },
        None => None,
    }
}

/// The decimal digits of a number, without leading zeros.
pub open spec fn decimal(n: nat) -> Seq<char>
    decreases n,
{
    if n < 10 {
        seq![(48 + n) as char]
    } else {
        decimal(n / 10) + seq![(48 + n % 10) as char]
    }
}

/// Writes a number in decimal, as `to_string` does.
pub fn decimal_chars(v: usize) -> (r: Vec<char>)
    ensures
        r@ == decimal(v as nat),
{
    let mut rev: Vec<char> = Vec::new();
    let mut n: usize = v;
    rev.push(((48 + n % 10) as u8) as char);
    n = n / 10;
    assert(rev@.reverse() =~= seq![(48 + v as nat % 10) as char]);
    while n > 0
        invariant
            decimal(v as nat) == (if n == 0 {
                Seq::<char>::empty()
            } else {
                decimal(n as nat)
            }) + rev@.reverse(),
        decreases n,
    {
        let ghost before = rev@;
        rev.push(((48 + n % 10) as u8) as char);
        assert(rev@.reverse() =~= seq![(48 + n as nat % 10) as char] + before.reverse());
        n = n / 10;
    }
    crate::text::reverse_chars(&rev)
}

} // verus!

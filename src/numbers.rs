//! Decimal numbers in text, read as `str::parse` reads them into `u8` and `i32`:
//! an optional sign, then one or more ASCII digits, with a value in range.
use vstd::prelude::*;
use vstd::string::*;

verus! {

/// Whether `c` is an ASCII decimal digit.
pub open spec fn is_digit(c: char) -> bool {
    '0' <= c && c <= '9'
}

/// One or more ASCII decimal digits.
pub open spec fn all_digits(d: Seq<char>) -> bool {
    d.len() > 0 && forall|i: int| 0 <= i < d.len() ==> is_digit(#[trigger] d[i])
}

/// The value of a sequence of decimal digits.
pub open spec fn digits_value(d: Seq<char>) -> nat
    decreases d.len(),
{
    if d.len() == 0 {
        0
    } else {
        digits_value(d.drop_last()) * 10 + ((d.last() as u32) - ('0' as u32)) as nat
    }
}

/// What `str::parse::<u8>` gives: an optional `+` and the digits of a value up
/// to 255.
pub open spec fn u8_value(s: Seq<char>) -> Option<u8> {
    let d = if s.len() > 1 && s[0] == '+' {
        s.drop_first()
    } else {
        s
    };
    if all_digits(d) && digits_value(d) <= 255 {
        Some(digits_value(d) as u8)
    } else {
        None
    }
}

/// What `str::parse::<i32>` gives: an optional `+` or `-` and the digits of a
/// value in range.
pub open spec fn i32_value(s: Seq<char>) -> Option<i32> {
    let signed = s.len() > 1 && (s[0] == '+' || s[0] == '-');
    let d = if signed {
        s.drop_first()
    } else {
        s
    };
    let v: int = if signed && s[0] == '-' {
        -digits_value(d)
    } else {
        digits_value(d) as int
    };
    if all_digits(d) && i32::MIN <= v <= i32::MAX {
        Some(v as i32)
    } else {
        None
    }
}

/// Digits never lose value as more follow.
proof fn lemma_digits_value_grows(d: Seq<char>, k: int)
    requires
        0 <= k <= d.len(),
    ensures
        digits_value(d.take(k)) <= digits_value(d),
    decreases d.len() - k,
{
    if k < d.len() {
        lemma_digits_value_grows(d, k + 1);
        assert(d.take(k + 1).drop_last() =~= d.take(k));
    } else {
        assert(d.take(k) =~= d);
    }
}

/// The value of the digits of `s` from `from` to `to`, where they are one or
/// more digits worth at most `limit`.
fn digits_upto(s: &str, from: usize, to: usize, limit: u64) -> (r: Option<u64>)
    requires
        from <= to <= s@.len(),
        limit < u64::MAX / 10 - 10,
    ensures
        ({
            let d = s@.subrange(from as int, to as int);
            &&& r is Some <==> all_digits(d) && digits_value(d) <= limit
            &&& r matches Some(v) ==> v == digits_value(d)
        }),
{
    let ghost d = s@.subrange(from as int, to as int);
    if from == to {
        return None;
    }
    let mut acc: u64 = 0;
    let mut i: usize = from;
    assert(d.take(0) =~= Seq::<char>::empty());
    while i < to
        invariant
            from <= i <= to <= s@.len(),
            d == s@.subrange(from as int, to as int),
            limit < u64::MAX / 10 - 10,
            acc <= limit,
            forall|j: int| 0 <= j < i - from ==> is_digit(#[trigger] d[j]),
            acc == digits_value(d.take(i - from)),
        decreases to - i,
    {
        let c = s.get_char(i);
        assert(c == d[i - from]);
        if !('0' <= c && c <= '9') {
            return None;
        }
        assert(d.take(i - from + 1).drop_last() =~= d.take(i - from));
        let next = acc * 10 + (c as u32 - '0' as u32) as u64;
        if next > limit {
            proof {
                if all_digits(d) {
                    lemma_digits_value_grows(d, i - from + 1);
                }
            }
            return None;
        }
        acc = next;
        i = i + 1;
    }
    assert(d.take(i - from) =~= d);
    Some(acc)
}

/// Reads a `u8` as `str::parse` does.
pub fn parse_u8(s: &str) -> (r: Option<u8>)
    ensures
        r == u8_value(s@),
{
    let n = s.unicode_len();
    let from: usize = if n > 1 && s.get_char(0) == '+' {
        1
    } else {
        0
    };
    assert(s@.subrange(from as int, n as int) =~= (if from == 1 {
        s@.drop_first()
    } else {
        s@
    }));
    match digits_upto(s, from, n, 255) {
        Some(v) => Some(v as u8),
        None => None,
    }
}

/// Reads an `i32` as `str::parse` does.
pub fn parse_i32(s: &str) -> (r: Option<i32>)
    ensures
        r == i32_value(s@),
{
    let n = s.unicode_len();
    let first = if n > 0 {
        s.get_char(0)
    } else {
        ' '
    };
    let signed = n > 1 && (first == '+' || first == '-');
    let negative = signed && first == '-';
    let from: usize = if signed {
        1
    } else {
        0
    };
    assert(s@.subrange(from as int, n as int) =~= (if signed {
        s@.drop_first()
    } else {
        s@
    }));
    let limit: u64 = if negative {
        2147483648
    } else {
        2147483647
    };
    match digits_upto(s, from, n, limit) {
        Some(v) => {
            if negative {
                Some((-(v as i64)) as i32)
            } else {
                Some(v as i32)
            }
        },
        None => None,
    }
}

} // verus!

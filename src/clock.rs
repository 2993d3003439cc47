//! The text shown by the clock: an optional sign, then hours, minutes and
//! seconds groups, each at least two digits wide.
use vstd::prelude::*;
use vstd::string::*;

verus! {

/// The character of a decimal digit.
pub open spec fn digit_char(d: nat) -> char
    recommends
        d < 10,
{
    seq!['0', '1', '2', '3', '4', '5', '6', '7', '8', '9'][d as int]
}

/// The decimal digits of `n`, most significant first, with no leading zero.
pub open spec fn decimal(n: nat) -> Seq<char>
    decreases n,
{
    if n < 10 {
        seq![digit_char(n)]
    } else {
        decimal(n / 10).push(digit_char(n % 10))
    }
}

/// `n` in decimal, padded on the left with zeros to at least two digits.
pub open spec fn pad2(n: nat) -> Seq<char> {
    if n < 10 {
        seq!['0'] + decimal(n)
    } else {
        decimal(n)
    }
}

/// The clock groups for `h` hours, `m` minutes and `s` seconds. The hours group
/// is left out when it is zero, and the minutes group when hours and minutes are
/// both zero, unless `show_zeroes` asks for every group.
pub open spec fn clock_text(h: nat, m: nat, s: nat, show_zeroes: bool) -> Seq<char> {
    let hours = if h == 0 && !show_zeroes {
        Seq::<char>::empty()
    } else {
        pad2(h).push(':')
    };
    let minutes = if h == 0 && m == 0 && !show_zeroes {
        Seq::<char>::empty()
    } else {
        pad2(m).push(':')
    };
    hours + minutes + pad2(s)
}

/// The absolute value of `x`.
pub open spec fn abs(x: int) -> nat {
    if x < 0 {
        (-x) as nat
    } else {
        x as nat
    }
}

/// The text for a count of `total` seconds: `-` when it is negative, then the
/// magnitude split into hours, minutes (below 60) and seconds (below 60).
pub open spec fn time_text(total: int, show_zeroes: bool) -> Seq<char> {
    let a = abs(total);
    let sign = if total < 0 {
        seq!['-']
    } else {
        Seq::<char>::empty()
    };
    sign + clock_text(a / 3600, (a / 60) % 60, a % 60, show_zeroes)
}

/// A digit is never a minus sign.
pub proof fn lemma_digit_unsigned(d: nat)
    requires
        d < 10,
    ensures
        digit_char(d) != '-',
{
    let ds = seq!['0', '1', '2', '3', '4', '5', '6', '7', '8', '9'];
    assert(forall|i: int| 0 <= i < 10 ==> ds[i] != '-');
}

/// No character of `decimal(n)` is a minus sign.
pub proof fn lemma_decimal_unsigned(n: nat)
    ensures
        forall|i: int| 0 <= i < decimal(n).len() ==> decimal(n)[i] != '-',
    decreases n,
{
    lemma_digit_unsigned(n % 10);
    if n >= 10 {
        lemma_decimal_unsigned(n / 10);
        let d = decimal(n);
        assert forall|i: int| 0 <= i < d.len() implies d[i] != '-' by {
            if i < d.len() - 1 {
                assert(d[i] == decimal(n / 10)[i]);
            }
        }
    } else {
        assert(n % 10 == n);
    }
}

/// No character of the clock groups is a minus sign.
pub proof fn lemma_clock_text_unsigned(h: nat, m: nat, s: nat, show_zeroes: bool)
    ensures
        forall|i: int|
            0 <= i < clock_text(h, m, s, show_zeroes).len() ==> clock_text(h, m, s, show_zeroes)[i]
                != '-',
{
    lemma_decimal_unsigned(h);
    lemma_decimal_unsigned(m);
    lemma_decimal_unsigned(s);
    assert(forall|n: nat, i: int| 0 <= i < pad2(n).len() && decimal(n)[0] != '-' && (forall|j: int| 0 <= j < decimal(n).len() ==> decimal(n)[j] != '-') ==> #[trigger] pad2(n)[i] != '-');
}

fn push_digit(s: &mut String, d: u32)
    requires
        d < 10,
    ensures
        final(s)@ == old(s)@.push(digit_char(d as nat)),
{
    proof {
        reveal_strlit("0");
        reveal_strlit("1");
        reveal_strlit("2");
        reveal_strlit("3");
        reveal_strlit("4");
        reveal_strlit("5");
        reveal_strlit("6");
        reveal_strlit("7");
        reveal_strlit("8");
        reveal_strlit("9");
    }
    match d {
        0 => s.append("0"),
        1 => s.append("1"),
        2 => s.append("2"),
        3 => s.append("3"),
        4 => s.append("4"),
        5 => s.append("5"),
        6 => s.append("6"),
        7 => s.append("7"),
        8 => s.append("8"),
        _ => s.append("9"),
    }
    assert(final(s)@ =~= old(s)@.push(digit_char(d as nat)));
}

fn push_decimal(s: &mut String, n: u32)
    ensures
        final(s)@ == old(s)@ + decimal(n as nat),
    decreases n,
{
    if n >= 10 {
        push_decimal(s, n / 10);
    }
    push_digit(s, n % 10);
    assert(final(s)@ =~= old(s)@ + decimal(n as nat));
}

fn push_pad2(s: &mut String, n: u32)
    ensures
        final(s)@ == old(s)@ + pad2(n as nat),
{
    if n < 10 {
        push_digit(s, 0);
    }
    push_decimal(s, n);
    assert(final(s)@ =~= old(s)@ + pad2(n as nat));
}

/// Formats a count of seconds as clock text, such as `-01:15` or `00:00:05`.
pub fn format_time(total_sec: i32, show_zeroes: bool) -> (r: String)
    ensures
        r@ == time_text(total_sec as int, show_zeroes),
{
    let is_less_than_zero = total_sec < 0;
    let a: u32 = if is_less_than_zero {
        (-(total_sec as i64)) as u32
    } else {
        total_sec as u32
    };
    let hours: u32 = a / 3600;
    let minutes: u32 = (a / 60) % 60;
    let seconds: u32 = a % 60;
    let mut r = String::new();
    if is_less_than_zero {
        proof {
            reveal_strlit("-");
        }
        r.append("-");
    }
    proof {
        reveal_strlit(":");
    }
    if !(hours == 0 && !show_zeroes) {
        push_pad2(&mut r, hours);
        r.append(":");
    }
    if !(hours == 0 && minutes == 0 && !show_zeroes) {
        push_pad2(&mut r, minutes);
        r.append(":");
    }
    push_pad2(&mut r, seconds);
    assert(r@ =~= time_text(total_sec as int, show_zeroes));
    r
}

} // verus!

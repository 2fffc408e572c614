//! Decimal integer text: the syntax Rust's `FromStr` for integers accepts, and
//! zero-padded decimal formatting.

use vstd::prelude::*;
use vstd::string::*;
use crate::text::push_char;

verus! {

/// Whether a character is an ASCII decimal digit.
pub open spec fn is_digit(c: char) -> bool {
    '0' <= c && c <= '9'
}

/// Whether every character of `s` is an ASCII digit.
pub open spec fn all_digits(s: Seq<char>) -> bool {
    forall|i: int| 0 <= i < s.len() ==> #[trigger] is_digit(s[i])
}

/// The value of a string of ASCII digits, most significant first.
pub open spec fn digits_value(s: Seq<char>) -> int
    decreases s.len(),
{
    if s.len() == 0 {
        0
    } else {
        digits_value(s.drop_last()) * 10 + (s.last() as int - 48)
    }
}

/// The integer denoted by `s` in the syntax of Rust's integer `FromStr`: an
/// optional `+` (or, when `signed`, `-`) followed by at least one ASCII digit.
pub open spec fn int_text_value(s: Seq<char>, signed: bool) -> Option<int> {
    if s.len() > 0 && s[0] == '+' {
        if s.len() > 1 && all_digits(s.drop_first()) {
            Some(digits_value(s.drop_first()))
        } else {
            None
        }
    } else if signed && s.len() > 0 && s[0] == '-' {
        if s.len() > 1 && all_digits(s.drop_first()) {
            Some(-digits_value(s.drop_first()))
        } else {
            None
        }
    } else if s.len() > 0 && all_digits(s) {
        Some(digits_value(s))
    } else {
        None
    }
}

/// Whether `s` parses as an integer within `[lo, hi]`, and to which value.
pub open spec fn parse_int_spec(s: Seq<char>, signed: bool, lo: int, hi: int) -> Option<int> {
    match int_text_value(s, signed) {
        Some(v) => if lo <= v && v <= hi {
            Some(v)
        } else {
            None
        },
        None => None,
    }
}

pub proof fn lemma_digits_value_nonneg(s: Seq<char>)
    requires
        all_digits(s),
    ensures
        digits_value(s) >= 0,
    decreases s.len(),
{
    if s.len() > 0 {
        assert(is_digit(s[s.len() - 1]));
        assert(all_digits(s.drop_last())) by {
            assert forall|i: int| 0 <= i < s.drop_last().len() implies #[trigger] is_digit(s.drop_last()[i]) by {
                assert(is_digit(s[i]));
            }
        }
        lemma_digits_value_nonneg(s.drop_last());
    }
}

/// Value of the digits `s[start..end]`, or `None` once it exceeds `cap`.
pub fn digits_in_range(s: &str, start: usize, end: usize, cap: u64) -> (r: Option<u64>)
    requires
        start <= end <= s@.len(),
        all_digits(s@.subrange(start as int, end as int)),
    ensures
        match r {
            Some(v) => v as int == digits_value(s@.subrange(start as int, end as int)) && v <= cap,
            None => digits_value(s@.subrange(start as int, end as int)) > cap,
        },
{
    let mut acc: u64 = 0;
    let mut i = start;
    while i < end
        invariant
            start <= i <= end <= s@.len(),
            all_digits(s@.subrange(start as int, end as int)),
            acc as int == digits_value(s@.subrange(start as int, i as int)),
            acc <= cap,
        decreases end - i,
    {
        let c = s.get_char(i);
        assert(s@.subrange(start as int, end as int)[i - start] == c);
        assert(is_digit(c));
        let d = (c as u32 - 48) as u64;
        let ghost sub = s@.subrange(start as int, i + 1);
        assert(sub.drop_last() =~= s@.subrange(start as int, i as int));
        assert(sub.last() == c);
        proof {
            lemma_digits_prefix_monotone(s@.subrange(start as int, end as int), (i + 1 - start) as int);
            assert(s@.subrange(start as int, end as int).subrange(0, (i + 1 - start) as int) =~= sub);
        }
        let next = match acc.checked_mul(10) {
            Some(m) => match m.checked_add(d) {
                Some(x) => x,
                None => {
                    return None;
                },
            },
            None => {
                return None;
            },
        };
        if next > cap {
            return None;
        }
        acc = next;
        i = i + 1;
    }
    Some(acc)
}

/// The value of a digit string is at least the value of any of its prefixes.
proof fn lemma_digits_prefix_monotone(s: Seq<char>, k: int)
    requires
        all_digits(s),
        0 <= k <= s.len(),
    ensures
        digits_value(s) >= digits_value(s.subrange(0, k)),
    decreases s.len() - k,
{
    if k < s.len() {
        lemma_digits_prefix_monotone(s, k + 1);
        let p = s.subrange(0, k + 1);
        assert(p.drop_last() =~= s.subrange(0, k));
        assert(is_digit(s[k]));
        assert(all_digits(s.subrange(0, k))) by {
            assert forall|i: int| 0 <= i < k implies #[trigger] is_digit(s.subrange(0, k)[i]) by {
                assert(is_digit(s[i]));
            }
        }
        lemma_digits_value_nonneg(s.subrange(0, k));
    } else {
        assert(s.subrange(0, k) =~= s);
    }
}

/// Whether `s[start..end]` is all digits.
fn all_digits_in(s: &str, start: usize, end: usize) -> (r: bool)
    requires
        start <= end <= s@.len(),
    ensures
        r == all_digits(s@.subrange(start as int, end as int)),
{
    let mut i = start;
    while i < end
        invariant
            start <= i <= end <= s@.len(),
            forall|k: int| start <= k < i ==> #[trigger] is_digit(s@[k]),
        decreases end - i,
    {
        let c = s.get_char(i);
        if !('0' <= c && c <= '9') {
            assert(!is_digit(s@.subrange(start as int, end as int)[i - start]));
            return false;
        }
        i = i + 1;
    }
    assert forall|k: int| 0 <= k < end - start implies #[trigger] is_digit(
        s@.subrange(start as int, end as int)[k],
    ) by {
        assert(is_digit(s@[start + k]));
    }
    true
}

/// Parses `s` as an unsigned integer no larger than `max`, in the syntax of
/// Rust's `FromStr` for unsigned integers.
pub fn parse_unsigned(s: &str, max: u64) -> (r: Option<u64>)
    ensures
        match r {
            Some(v) => parse_int_spec(s@, false, 0, max as int) == Some(v as int),
            None => parse_int_spec(s@, false, 0, max as int) is None,
        },
{
    let n = s.unicode_len();
    if n == 0 {
        return None;
    }
    let start: usize = if s.get_char(0) == '+' {
        1
    } else {
        0
    };
    if start == 1 && n == 1 {
        return None;
    }
    assert(start == 1 ==> s@.drop_first() =~= s@.subrange(1, n as int));
    assert(start == 0 ==> s@ =~= s@.subrange(0, n as int));
    if !all_digits_in(s, start, n) {
        return None;
    }
    proof {
        lemma_digits_value_nonneg(s@.subrange(start as int, n as int));
    }
    digits_in_range(s, start, n, max)
}

/// Parses `s` as an `i64`, in the syntax of Rust's `i64::from_str`.
pub fn parse_i64(s: &str) -> (r: Option<i64>)
    ensures
        match r {
            Some(v) => parse_int_spec(s@, true, i64::MIN as int, i64::MAX as int) == Some(v as int),
            None => parse_int_spec(s@, true, i64::MIN as int, i64::MAX as int) is None,
        },
{
    let n = s.unicode_len();
    if n == 0 {
        return None;
    }
    let c0 = s.get_char(0);
    let start: usize = if c0 == '+' || c0 == '-' {
        1
    } else {
        0
    };
    if start == 1 && n == 1 {
        return None;
    }
    assert(start == 1 ==> s@.drop_first() =~= s@.subrange(1, n as int));
    assert(start == 0 ==> s@ =~= s@.subrange(0, n as int));
    if !all_digits_in(s, start, n) {
        return None;
    }
    proof {
        lemma_digits_value_nonneg(s@.subrange(start as int, n as int));
    }
    if c0 == '-' {
        match digits_in_range(s, start, n, 0x8000_0000_0000_0000u64) {
            Some(v) => if v == 0x8000_0000_0000_0000u64 {
                Some(i64::MIN)
            } else {
                Some(-(v as i64))
            },
            None => None,
        }
    } else {
        match digits_in_range(s, start, n, i64::MAX as u64) {
            Some(v) => Some(v as i64),
            None => None,
        }
    }
}

/// Decimal digits of `v`, most significant first, without leading zeros
/// (a single `0` for zero).
pub open spec fn decimal_digits(v: nat) -> Seq<char>
    decreases v,
{
    if v < 10 {
        seq![(48 + v) as char]
    } else {
        decimal_digits(v / 10).push((48 + v % 10) as char)
    }
}

/// `v` in decimal, left-padded with zeros to at least `width` characters.
pub open spec fn zero_padded(v: nat, width: nat) -> Seq<char> {
    let d = decimal_digits(v);
    if d.len() >= width {
        d
    } else {
        Seq::new((width - d.len()) as nat, |i: int| '0') + d
    }
}

/// Appends the decimal digits of `v` to `out`.
pub fn push_decimal(out: &mut String, v: u64)
    ensures
        final(out)@ == old(out)@ + decimal_digits(v as nat),
    decreases v,
{
    if v < 10 {
        push_char(out, ((48 + v) as u8) as char);
        assert(decimal_digits(v as nat) =~= seq![(48 + v) as char]);
    } else {
        push_decimal(out, v / 10);
        push_char(out, ((48 + v % 10) as u8) as char);
        assert(decimal_digits(v as nat) =~= decimal_digits((v / 10) as nat).push((48 + v % 10) as char));
    }
}

proof fn lemma_decimal_digits_len(v: nat)
    ensures
        decimal_digits(v).len() >= 1,
    decreases v,
{
    if v >= 10 {
        lemma_decimal_digits_len(v / 10);
    }
}

/// Appends `v` zero-padded to `width` digits to `out` (like `{:0width$}`).
pub fn push_zero_padded(out: &mut String, v: u64, width: usize)
    ensures
        final(out)@ == old(out)@ + zero_padded(v as nat, width as nat),
{
    let mut digits = String::new();
    push_decimal(&mut digits, v);
    proof {
        lemma_decimal_digits_len(v as nat);
    }
    let len = digits.as_str().unicode_len();
    if len < width {
        let pad = width - len;
        let mut i: usize = 0;
        let ghost start = out@;
        while i < pad
            invariant
                i <= pad,
                out@ == start + Seq::new(i as nat, |k: int| '0'),
            decreases pad - i,
        {
            push_char(out, '0');
            i = i + 1;
            assert(out@ =~= start + Seq::new(i as nat, |k: int| '0'));
        }
    }
    let ghost before = out@;
    out.append(digits.as_str());
    assert(out@ =~= old(out)@ + zero_padded(v as nat, width as nat));
}

/// An integer in decimal, with a leading `-` when negative.
pub open spec fn int_text(v: int) -> Seq<char> {
    if v < 0 {
        seq!['-'] + decimal_digits((-v) as nat)
    } else {
        decimal_digits(v as nat)
    }
}

/// Appends an integer in decimal (see `int_text`).
pub fn push_int(out: &mut String, v: i64)
    ensures
        final(out)@ == old(out)@ + int_text(v as int),
{
    if v < 0 {
        let ghost before = out@;
        push_char(out, '-');
        let m: i128 = -(v as i128);
        push_decimal(out, m as u64);
        assert(out@ =~= before + int_text(v as int));
    } else {
        push_decimal(out, v as u64);
    }
}

} // verus!

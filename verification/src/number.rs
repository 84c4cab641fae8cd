//! Numbers as text: reading integers, and decimal digits of a least width.
use vstd::prelude::*;
use crate::text::{chars_of, decimal, digit, i64_text, u64_text};

verus! {

/// Whether the character is a decimal digit of ASCII.
pub open spec fn is_digit(c: char) -> bool {
    '0' <= c && c <= '9'
}

/// Whether every character is a decimal digit of ASCII.
pub open spec fn all_digits(s: Seq<char>) -> bool {
    forall|i: int| 0 <= i < s.len() ==> is_digit(#[trigger] s[i])
}

/// The number that a row of decimal digits stands for.
pub open spec fn digits_value(s: Seq<char>) -> nat
    decreases s.len(),
{
    if s.len() == 0 {
        0
    } else {
        digits_value(s.drop_last()) * 10 + (s.last() as nat - 48) as nat
    }
}

/// The unsigned number that the text stands for: an optional plus sign, then one or more
/// digits, with a value of at most `max`.
pub open spec fn unsigned_value(s: Seq<char>, max: nat) -> Option<nat> {
    let body = if s.len() > 0 && s[0] == '+' {
        s.skip(1)
    } else {
        s
    };
    if body.len() > 0 && all_digits(body) && digits_value(body) <= max {
        Some(digits_value(body))
    } else {
        None
    }
}

/// The signed 64-bit number that the text stands for: an optional sign, then one or more
/// digits, with a value that fits.
pub open spec fn signed_value(s: Seq<char>) -> Option<int> {
    if s.len() > 0 && s[0] == '-' {
        let body = s.skip(1);
        if body.len() > 0 && all_digits(body) && digits_value(body) <= 9223372036854775808 {
            Some(-(digits_value(body) as int))
        } else {
            None
        }
    } else {
        match unsigned_value(s, 9223372036854775807) {
            Some(n) => Some(n as int),
            None => None,
        }
    }
}

/// A longer row of digits never stands for a smaller number.
proof fn lemma_digits_grow(s: Seq<char>, i: int)
    requires
        0 <= i <= s.len(),
    ensures
        digits_value(s.take(i)) <= digits_value(s),
    decreases s.len() - i,
{
    if i == s.len() {
        assert(s.take(i) =~= s);
    } else {
        lemma_digits_grow(s, i + 1);
        assert(s.take(i + 1).drop_last() =~= s.take(i));
    }
}

/// The value of the digits from `from` on, where it is at most `max`.
fn read_digits(v: &Vec<char>, from: usize, max: u64) -> (r: Option<u64>)
    requires
        from <= v@.len(),
    ensures
        ({
            let body = v@.skip(from as int);
            r == if body.len() > 0 && all_digits(body) && digits_value(body) <= max {
                Some(digits_value(body) as u64)
            } else {
                None::<u64>
            }
        }),
{
    let ghost body = v@.skip(from as int);
    if from == v.len() {
        return None;
    }
    let mut i: usize = from;
    let mut acc: u64 = 0;
    assert(body.take(0) =~= Seq::<char>::empty());
    while i < v.len()
        invariant
            from <= i <= v@.len(),
            body == v@.skip(from as int),
            acc <= max,
            acc == digits_value(body.take(i - from)),
            forall|k: int| 0 <= k < i - from ==> is_digit(#[trigger] body[k]),
        decreases v@.len() - i,
    {
        let c = v[i];
        assert(body[i - from] == c);
        if !('0' <= c && c <= '9') {
            return None;
        }
        let d: u64 = (c as u32 - 48) as u64;
        proof {
            let next = body.take(i - from + 1);
            assert(next.drop_last() =~= body.take(i - from));
            assert(next.last() == c);
            lemma_digits_grow(body, i - from + 1);
        }
        if acc > max / 10 {
            return None;
        }
        let ten: u64 = acc * 10;
        if d > max - ten {
            return None;
        }
        acc = ten + d;
        i = i + 1;
    }
    assert(body.take(v@.len() - from) =~= body);
    Some(acc)
}

/// Reads an unsigned number of at most `max`.
pub fn parse_unsigned(s: &str, max: u64) -> (r: Option<u64>)
    ensures
        r == match unsigned_value(s@, max as nat) {
            Some(n) => Some(n as u64),
            None => None::<u64>,
        },
{
    let v = chars_of(s);
    assert(v@.skip(0) =~= v@);
    if v.len() > 0 && v[0] == '+' {
        read_digits(&v, 1, max)
    } else {
        read_digits(&v, 0, max)
    }
}

/// Reads a signed 64-bit number.
pub fn parse_signed(s: &str) -> (r: Option<i64>)
    ensures
        r == match signed_value(s@) {
            Some(n) => Some(n as i64),
            None => None::<i64>,
        },
{
    let v = chars_of(s);
    if v.len() > 0 && v[0] == '-' {
        match read_digits(&v, 1, 9223372036854775808) {
            Some(n) => if n == 9223372036854775808 {
                Some(i64::MIN)
            } else {
                Some(-(n as i64))
            },
            None => None,
        }
    } else {
        match parse_unsigned(s, 9223372036854775807) {
            Some(n) => Some(n as i64),
            None => None,
        }
    }
}

/// The number in decimal digits, filled with zeros on the left up to `width` digits.
pub open spec fn padded(n: nat, width: nat) -> Seq<char>
    decreases n + width,
{
    if n < 10 && width <= 1 {
        seq![digit(n as int)]
    } else {
        let narrower: nat = if width > 0 {
            (width - 1) as nat
        } else {
            0
        };
        padded(n / 10, narrower).push(digit((n % 10) as int))
    }
}

/// The number in decimal digits, filled with zeros on the left up to `width` digits.
pub fn padded_text(n: u64, width: u64) -> (r: String)
    ensures
        r@ == padded(n as nat, width as nat),
    decreases n + width,
{
    if n < 10 && width <= 1 {
        let mut r = String::new();
        r.push((48u8 + n as u8) as char);
        assert(r@ =~= seq![digit(n as int)]);
        r
    } else {
        let narrower: u64 = if width > 0 {
            width - 1
        } else {
            0
        };
        let mut r = padded_text(n / 10, narrower);
        r.push((48u8 + (n % 10) as u8) as char);
        r
    }
}

/// The digits of a number, read again, are the number.
pub proof fn decimal_reads_back(n: nat)
    ensures
        all_digits(decimal(n)),
        digits_value(decimal(n)) == n,
        decimal(n).len() > 0,
    decreases n,
{
    if n < 10 {
        let s = decimal(n);
        assert(s == seq![digit(n as int)]);
        assert(s.drop_last() =~= Seq::<char>::empty());
        assert(digits_value(s.drop_last()) == 0);
        assert(s.last() as nat == 48 + n);
    } else {
        decimal_reads_back(n / 10);
        let s = decimal(n);
        let t = decimal(n / 10);
        assert(s.drop_last() =~= t);
        assert(s.last() as nat == 48 + n % 10);
        assert forall|i: int| 0 <= i < s.len() implies is_digit(#[trigger] s[i]) by {
            if i < t.len() {
                assert(s[i] == t[i]);
            }
        }
    }
}

/// A digit that is put behind a row of digits makes it ten times as much, and the digit more.
pub proof fn each_place_counts_ten_times(s: Seq<char>, c: char)
    ensures
        digits_value(Seq::<char>::empty()) == 0,
        '0' <= c && c <= '9' ==> digits_value(s.push(c)) == 10 * digits_value(s) + (c as int
            - '0' as int),
{
    assert(s.push(c).drop_last() =~= s);
}

/// A number that was written down is read as that number where it is not too large, with a plus
/// sign before it too, and is not read where it is too large.
pub proof fn a_written_number_is_read(
    n: u64,
    written: String,
    text: &str,
    max: u64,
    r: Option<u64>,
)
    requires
        call_ensures(u64_text, (n,), written),
        text@ == written@ || text@ == seq!['+'] + written@,
        call_ensures(parse_unsigned, (text, max), r),
    ensures
        n <= max ==> r == Some(n),
        n > max ==> r is None,
{
    decimal_reads_back(n as nat);
    assert(is_digit(written@[0]));
    if text@ == seq!['+'] + written@ {
        assert(text@.skip(1) =~= written@);
    }
}

/// A signed number that was written down is read as that number.
pub proof fn a_written_signed_number_is_read(n: i64, written: String, text: &str, r: Option<i64>)
    requires
        call_ensures(i64_text, (n,), written),
        text@ == written@,
        call_ensures(parse_signed, (text,), r),
    ensures
        r == Some(n),
{
    if n < 0 {
        let m = (-(n as int)) as nat;
        decimal_reads_back(m);
        assert(written@[0] == '-');
        assert(written@.skip(1) =~= decimal(m));
    } else {
        decimal_reads_back(n as nat);
        assert(is_digit(written@[0]));
    }
}

/// What has a character that is no digit, or no digit at all, is no number.
pub proof fn only_digits_are_read(text: &str, max: u64, r: Option<u64>, i: int)
    requires
        call_ensures(parse_unsigned, (text, max), r),
    ensures
        text@.len() == 0 ==> r is None,
        text@ == seq!['+'] ==> r is None,
        0 < i < text@.len() && !('0' <= text@[i] && text@[i] <= '9') ==> r is None,
        text@.len() > 0 && text@[0] != '+' && !('0' <= text@[0] && text@[0] <= '9') ==> r is None,
        r matches Some(n) ==> n <= max,
{
    if text@.len() > 0 && text@[0] == '+' {
        let body = text@.skip(1);
        if 0 < i < text@.len() {
            assert(body[i - 1] == text@[i]);
        }
    }
}

/// A number that is filled with zeros has at least the width that was asked for, and reads as the
/// number.
pub proof fn filled_numbers_read_back(n: u64, width: u64, r: String)
    requires
        call_ensures(padded_text, (n, width), r),
    ensures
        r@.len() >= width,
        all_digits(r@),
        digits_value(r@) == n,
{
    lemma_padded_reads_back(n as nat, width as nat);
}

/// The digits of a filled number, read again, are the number.
pub proof fn lemma_padded_reads_back(n: nat, width: nat)
    ensures
        padded(n, width).len() >= width,
        padded(n, width).len() > 0,
        all_digits(padded(n, width)),
        digits_value(padded(n, width)) == n,
    decreases n + width,
{
    let s = padded(n, width);
    if n < 10 && width <= 1 {
        assert(s == seq![digit(n as int)]);
        assert(s.drop_last() =~= Seq::<char>::empty());
        assert(digits_value(s.drop_last()) == 0);
        assert(s.last() as nat == 48 + n);
    } else {
        let narrower: nat = if width > 0 {
            (width - 1) as nat
        } else {
            0
        };
        lemma_padded_reads_back(n / 10, narrower);
        let t = padded(n / 10, narrower);
        assert(s.drop_last() =~= t);
        assert(s.last() as nat == 48 + n % 10);
        assert forall|i: int| 0 <= i < s.len() implies is_digit(#[trigger] s[i]) by {
            if i < t.len() {
                assert(s[i] == t[i]);
            }
        }
    }
}

} // verus!

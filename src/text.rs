//! Decimal digits in text: reading fixed groups of digits and writing
//! zero-padded numbers.
use vstd::prelude::*;

verus! {

/// Whether `c` is one of the ASCII digits `0` to `9`.
pub open spec fn is_digit(c: char) -> bool {
    '0' <= c && c <= '9'
}

/// Whether every character of `s` from `from` up to `to` is a digit.
pub open spec fn all_digits(s: Seq<char>, from: int, to: int) -> bool {
    forall|i: int| from <= i < to ==> is_digit(#[trigger] s[i])
}

/// The value of the digit `c`.
pub open spec fn digit_value(c: char) -> nat {
    (c as nat - '0' as nat) as nat
}

/// The number that the digits `s` write, most significant first.
pub open spec fn digits_value(s: Seq<char>) -> nat
    decreases s.len(),
{
    if s.len() == 0 {
        0
    } else {
        digits_value(s.drop_last()) * 10 + digit_value(s.last())
    }
}

/// The character of the digit `d`, below ten.
pub open spec fn digit_char(d: nat) -> char {
    if d == 0 {
        '0'
    } else if d == 1 {
        '1'
    } else if d == 2 {
        '2'
    } else if d == 3 {
        '3'
    } else if d == 4 {
        '4'
    } else if d == 5 {
        '5'
    } else if d == 6 {
        '6'
    } else if d == 7 {
        '7'
    } else if d == 8 {
        '8'
    } else {
        '9'
    }
}

/// `n` in decimal, padded with leading zeros to at least `width` digits.
pub open spec fn decimal(n: nat, width: nat) -> Seq<char>
    decreases n + width,
{
    if n < 10 && width <= 1 {
        seq![digit_char(n)]
    } else {
        decimal(n / 10, if width > 0 { (width - 1) as nat } else { 0 }).push(digit_char(n % 10))
    }
}

/// The character of a digit is a digit of that value.
proof fn lemma_digit_char(d: nat)
    requires
        d < 10,
    ensures
        is_digit(digit_char(d)),
        digit_value(digit_char(d)) == d,
{
}

/// A number below 100, written with two digits, reads back as itself.
pub proof fn lemma_decimal_two(n: nat)
    requires
        n < 100,
    ensures
        decimal(n, 2) == seq![digit_char(n / 10), digit_char(n % 10)],
        all_digits(decimal(n, 2), 0, 2),
        digits_value(decimal(n, 2)) == n,
{
    let s = decimal(n, 2);
    assert(decimal(n / 10, 1) == seq![digit_char(n / 10)]);
    assert(s =~= seq![digit_char(n / 10), digit_char(n % 10)]);
    lemma_digit_char(n / 10);
    lemma_digit_char(n % 10);
    let a = s.drop_last();
    assert(a =~= seq![digit_char(n / 10)]);
    assert(a.drop_last() =~= Seq::<char>::empty());
    assert(a.last() == digit_char(n / 10));
    assert(digits_value(a) == digits_value(a.drop_last()) * 10 + digit_value(a.last()));
    assert(digits_value(a) == n / 10);
    assert(digits_value(s) == digits_value(a) * 10 + digit_value(s.last()));
}

/// A number below 1000, written with three digits, reads back as itself.
pub proof fn lemma_decimal_three(n: nat)
    requires
        n < 1000,
    ensures
        decimal(n, 3).len() == 3,
        all_digits(decimal(n, 3), 0, 3),
        digits_value(decimal(n, 3)) == n,
{
    let s = decimal(n, 3);
    lemma_decimal_two(n / 10);
    lemma_digit_char(n % 10);
    assert(s == decimal(n / 10, 2).push(digit_char(n % 10)));
    assert(s.drop_last() =~= decimal(n / 10, 2));
    assert(all_digits(s, 0, 3)) by {
        assert forall|i: int| 0 <= i < 3 implies is_digit(#[trigger] s[i]) by {
            if i < 2 {
                assert(s[i] == decimal(n / 10, 2)[i]);
            }
        }
    }
}

/// A digit string never writes less than one of its prefixes.
proof fn lemma_digits_value_prefix(s: Seq<char>, k: int)
    requires
        0 <= k <= s.len(),
        all_digits(s, 0, s.len() as int),
    ensures
        digits_value(s.subrange(0, k)) <= digits_value(s),
    decreases s.len(),
{
    if k < s.len() {
        let t = s.drop_last();
        assert(t.subrange(0, k) =~= s.subrange(0, k));
        assert(all_digits(t, 0, t.len() as int)) by {
            assert forall|i: int| 0 <= i < t.len() implies is_digit(#[trigger] t[i]) by {
                assert(t[i] == s[i]);
            }
        }
        lemma_digits_value_prefix(t, k);
    } else {
        assert(s.subrange(0, k) =~= s);
    }
}

/// Two digits write at most 99.
pub proof fn lemma_two_digits(t: Seq<char>)
    requires
        t.len() == 2,
        all_digits(t, 0, 2),
    ensures
        digits_value(t) <= 99,
{
    assert(is_digit(t[0]) && is_digit(t[1]));
    let first = t.drop_last();
    assert(first.drop_last() =~= Seq::<char>::empty());
    assert(first.last() == t[0]);
    assert(digits_value(first) == digits_value(first.drop_last()) * 10 + digit_value(t[0]));
    assert(digits_value(first) <= 9);
    assert(digits_value(t) == digits_value(first) * 10 + digit_value(t[1]));
}

/// Reads the digits of `s` from `from` up to `to` as a number no larger
/// than `limit`: `None` where one of them is not a digit or the number is
/// larger.
pub(crate) fn read_number(s: &str, from: usize, to: usize, limit: u64) -> (r: Option<u64>)
    requires
        from <= to <= s@.len(),
        limit < u64::MAX / 10,
    ensures
        r.is_some() <==> all_digits(s@, from as int, to as int) && digits_value(
            s@.subrange(from as int, to as int),
        ) <= limit,
        r.is_some() ==> r.unwrap() == digits_value(s@.subrange(from as int, to as int)),
{
    let mut acc: u64 = 0;
    let mut i: usize = from;
    while i < to
        invariant
            from <= i <= to <= s@.len(),
            limit < u64::MAX / 10,
            all_digits(s@, from as int, i as int),
            acc == digits_value(s@.subrange(from as int, i as int)),
            acc <= limit,
        decreases to - i,
    {
        let c = s.get_char(i);
        if !('0' <= c && c <= '9') {
            return None;
        }
        let d = (c as u32 - '0' as u32) as u64;
        let next = acc * 10 + d;
        let ghost sub = s@.subrange(from as int, i as int + 1);
        assert(sub.drop_last() =~= s@.subrange(from as int, i as int));
        if next > limit {
            proof {
                if all_digits(s@, from as int, to as int) {
                    let whole = s@.subrange(from as int, to as int);
                    assert(whole.subrange(0, i - from + 1) =~= sub);
                    lemma_digits_value_prefix(whole, i - from + 1);
                }
            }
            return None;
        }
        acc = next;
        i = i + 1;
    }
    Some(acc)
}

/// The text of the digit `d`.
fn digit_text(d: u64) -> (r: &'static str)
    requires
        d < 10,
    ensures
        r@ == seq![digit_char(d as nat)],
{
    proof {
        reveal_strlit("0");
        reveal_strlit("1");
        reveal_strlit("2");
        reveal_strlit("3");
        reveal_strlit("4");
        reveal_strlit("5");
        reveal_strlit("6");
        reveal_strlit("7");
        reveal_strlit("8");
        reveal_strlit("9");
    }
    if d == 0 {
        "0"
    } else if d == 1 {
        "1"
    } else if d == 2 {
        "2"
    } else if d == 3 {
        "3"
    } else if d == 4 {
        "4"
    } else if d == 5 {
        "5"
    } else if d == 6 {
        "6"
    } else if d == 7 {
        "7"
    } else if d == 8 {
        "8"
    } else {
        "9"
    }
}

/// Appends `n` in decimal, padded with leading zeros to at least `width`
/// digits.
pub(crate) fn push_decimal(out: &mut String, n: u64, width: u64)
    ensures
        final(out)@ == old(out)@ + decimal(n as nat, width as nat),
    decreases n + width,
{
    if n < 10 && width <= 1 {
        out.append(digit_text(n));
    } else {
        let w: u64 = if width > 0 { width - 1 } else { 0 };
        push_decimal(out, n / 10, w);
        out.append(digit_text(n % 10));
        assert(out@ =~= old(out)@ + decimal(n as nat, width as nat));
    }
}

} // verus!

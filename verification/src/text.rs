//! Decimal rendering of integers and small string helpers.

use vstd::prelude::*;
use vstd::string::*;

verus! {

/// The character of the decimal digit `d` (`0 <= d < 10`).
pub open spec fn digit_char(d: int) -> char {
    if d == 0 { '0' }
    else if d == 1 { '1' }
    else if d == 2 { '2' }
    else if d == 3 { '3' }
    else if d == 4 { '4' }
    else if d == 5 { '5' }
    else if d == 6 { '6' }
    else if d == 7 { '7' }
    else if d == 8 { '8' }
    else { '9' }
}

/// The decimal digits of a natural number, most significant first, without
/// leading zeros (`0` is written `"0"`).
pub open spec fn decimal_digits(n: nat) -> Seq<char>
    decreases n,
{
    if n < 10 {
        seq![digit_char(n as int)]
    } else {
        decimal_digits(n / 10).push(digit_char((n % 10) as int))
    }
}

/// How an integer is written in decimal: a minus sign for negative numbers,
/// then the digits of its magnitude.
pub open spec fn decimal(v: int) -> Seq<char> {
    if v < 0 {
        seq!['-'] + decimal_digits((-v) as nat)
    } else {
        decimal_digits(v as nat)
    }
}

fn digit_str(d: u64) -> (s: &'static str)
    requires
        d < 10,
    ensures
        s@ == seq![digit_char(d as int)],
{
    proof {
        reveal_strlit("0");
        reveal_strlit("1");
        reveal_strlit("2");
        reveal_strlit("3");
        reveal_strlit("4");
        reveal_strlit("5");
        reveal_strlit("6");
        reveal_strlit("7");
        reveal_strlit("8");
        reveal_strlit("9");
    }
    if d == 0 { "0" }
    else if d == 1 { "1" }
    else if d == 2 { "2" }
    else if d == 3 { "3" }
    else if d == 4 { "4" }
    else if d == 5 { "5" }
    else if d == 6 { "6" }
    else if d == 7 { "7" }
    else if d == 8 { "8" }
    else { "9" }
}

/// Appends the decimal digits of `n` to `out`.
fn push_digits(out: &mut String, n: u64)
    ensures
        final(out)@ == old(out)@ + decimal_digits(n as nat),
    decreases n,
{
    if n < 10 {
        out.append(digit_str(n));
    } else {
        push_digits(out, n / 10);
        out.append(digit_str(n % 10));
        proof {
            assert(decimal_digits(n as nat) == decimal_digits((n / 10) as nat).push(
                digit_char((n % 10) as int),
            ));
        }
    }
}

/// Writes `v` in decimal, as `format!("{}", v)` does for an `i64`.
pub fn i64_to_decimal(v: i64) -> (s: String)
    ensures
        s@ == decimal(v as int),
{
    let mut out = String::new();
    if v < 0 {
        proof {
            reveal_strlit("-");
        }
        out.append("-");
        let magnitude: u64 = if v == i64::MIN {
            9223372036854775808u64
        } else {
            (-v) as u64
        };
        push_digits(&mut out, magnitude);
    } else {
        push_digits(&mut out, v as u64);
    }
    out
}

/// A copy of `s`.
pub fn copy_string(s: &String) -> (r: String)
    ensures
        r@ == s@,
        r == *s,
{
    s.clone()
}

/// A copy of every string of `v`, in order.
pub fn copy_strings(v: &Vec<String>) -> (r: Vec<String>)
    ensures
        r@ == v@,
{
    let mut r: Vec<String> = Vec::new();
    for i in 0..v.len()
        invariant
            r@ == v@.take(i as int),
    {
        r.push(v[i].clone());
        assert(v@.take(i + 1) == v@.take(i as int).push(v@[i as int]));
    }
    assert(v@.take(v.len() as int) == v@);
    r
}

/// The value of a character that is a decimal digit.
pub open spec fn char_value(c: char) -> int {
    (c as int) - ('0' as int)
}

/// The number that a sequence of decimal digits denotes, most significant
/// first.
pub open spec fn digits_value(s: Seq<char>) -> int
    decreases s.len(),
{
    if s.len() == 0 {
        0
    } else {
        digits_value(s.drop_last()) * 10 + char_value(s.last())
    }
}

/// Each digit character has its own value.
proof fn lemma_digit_char_value(d: int)
    requires
        0 <= d < 10,
    ensures
        char_value(digit_char(d)) == d,
        '0' <= digit_char(d) <= '9',
        d > 0 ==> digit_char(d) != '0',
{
    assert(('0' as int) == 48);
    assert(('1' as int) == 49);
    assert(('2' as int) == 50);
    assert(('3' as int) == 51);
    assert(('4' as int) == 52);
    assert(('5' as int) == 53);
    assert(('6' as int) == 54);
    assert(('7' as int) == 55);
    assert(('8' as int) == 56);
    assert(('9' as int) == 57);
}

/// The decimal digits of `n` are digits, read back as `n`, and have no
/// leading zero unless `n` is 0.
pub proof fn lemma_decimal_digits_read_back(n: nat)
    ensures
        digits_value(decimal_digits(n)) == n,
        forall|i: int|
            0 <= i < decimal_digits(n).len() ==> '0' <= #[trigger] decimal_digits(n)[i] <= '9',
        decimal_digits(n).len() >= 1,
        n > 0 ==> decimal_digits(n)[0] != '0',
        n == 0 ==> decimal_digits(n) == seq!['0'],
    decreases n,
{
    if n >= 10 {
        lemma_decimal_digits_read_back(n / 10);
        lemma_digit_char_value((n % 10) as int);
        let d = decimal_digits(n);
        assert(d.drop_last() =~= decimal_digits(n / 10));
        assert(d.last() == digit_char((n % 10) as int));
        assert(digits_value(d) == digits_value(d.drop_last()) * 10 + char_value(d.last()));
        assert(n == (n / 10) * 10 + n % 10);
        assert(d[0] == decimal_digits(n / 10)[0]);
        assert forall|i: int| 0 <= i < d.len() implies '0' <= #[trigger] d[i] <= '9' by {
            if i < d.len() - 1 {
                assert(d[i] == decimal_digits(n / 10)[i]);
            }
        }
    } else {
        lemma_digit_char_value(n as int);
        let d = decimal_digits(n);
        assert(d.drop_last() =~= Seq::<char>::empty());
        assert(digits_value(d) == digits_value(d.drop_last()) * 10 + char_value(d.last()));
    }
}

/// A number is written with a minus sign exactly when it is negative, and
/// the digits after the sign read back as its magnitude.
pub proof fn lemma_decimal_read_back(v: int)
    ensures
        (decimal(v)[0] == '-') <==> v < 0,
        v < 0 ==> digits_value(decimal(v).drop_first()) == -v,
        v >= 0 ==> digits_value(decimal(v)) == v,
{
    if v < 0 {
        lemma_decimal_digits_read_back((-v) as nat);
        assert(decimal(v).drop_first() =~= decimal_digits((-v) as nat));
    } else {
        lemma_decimal_digits_read_back(v as nat);
        assert('0' <= decimal(v)[0] <= '9');
    }
}

} // verus!

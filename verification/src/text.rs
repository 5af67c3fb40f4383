//! Decimal text for whole numbers and for thousandths.

use vstd::prelude::*;

verus! {

/// The character of the digit `d`, for `d` below ten.
pub open spec fn digit_char(d: int) -> char {
    ('0' as int + d) as char
}

/// The decimal digits of `n`, without leading zeros.
pub open spec fn decimal(n: nat) -> Seq<char>
    decreases n,
{
    if n < 10 {
        seq![digit_char(n as int)]
    } else {
        decimal(n / 10).push(digit_char((n % 10) as int))
    }
}

/// The decimal digits of `n`, after a minus sign where `n` is negative.
pub open spec fn signed_decimal(n: int) -> Seq<char> {
    if n < 0 {
        seq!['-'] + decimal((-n) as nat)
    } else {
        decimal(n as nat)
    }
}

/// The decimal digits of `n`, with a zero before a single digit.
pub open spec fn padded(n: nat) -> Seq<char> {
    if n < 10 {
        seq!['0'] + decimal(n)
    } else {
        decimal(n)
    }
}

/// The digits of `f` thousandths after the decimal point, without trailing
/// zeros; `f` is from 1 to 999.
pub open spec fn fraction(f: nat) -> Seq<char> {
    if f % 100 == 0 {
        seq![digit_char((f / 100) as int)]
    } else if f % 10 == 0 {
        seq![digit_char((f / 100) as int), digit_char((f / 10 % 10) as int)]
    } else {
        seq![
            digit_char((f / 100) as int),
            digit_char((f / 10 % 10) as int),
            digit_char((f % 10) as int),
        ]
    }
}

/// `a` thousandths as a decimal number: the whole part, then, unless the rest
/// is zero, a point and the digits of the rest.
pub open spec fn thousandths_unsigned(a: nat) -> Seq<char> {
    if a % 1000 == 0 {
        decimal(a / 1000)
    } else {
        decimal(a / 1000) + seq!['.'] + fraction(a % 1000)
    }
}

/// `m` thousandths as a decimal number, after a minus sign where `m` is
/// negative: `-160500` is `-160.5`, `20000` is `20`.
pub open spec fn thousandths(m: int) -> Seq<char> {
    if m < 0 {
        seq!['-'] + thousandths_unsigned((-m) as nat)
    } else {
        thousandths_unsigned(m as nat)
    }
}

/// The text of one digit.
fn digit_str(d: u64) -> (s: &'static str)
    requires
        d < 10,
    ensures
        s@ == seq![digit_char(d as int)],
{
    proof {
        reveal_strlit("0");
        reveal_strlit("1");
        reveal_strlit("2");
        reveal_strlit("3");
        reveal_strlit("4");
        reveal_strlit("5");
        reveal_strlit("6");
        reveal_strlit("7");
        reveal_strlit("8");
        reveal_strlit("9");
    }
    let s = if d == 0 {
        "0"
    } else if d == 1 {
        "1"
    } else if d == 2 {
        "2"
    } else if d == 3 {
        "3"
    } else if d == 4 {
        "4"
    } else if d == 5 {
        "5"
    } else if d == 6 {
        "6"
    } else if d == 7 {
        "7"
    } else if d == 8 {
        "8"
    } else {
        "9"
    };
    assert(s@ =~= seq![digit_char(d as int)]);
    s
}

/// The size of `n` without its sign.
pub fn magnitude(n: i64) -> (a: u64)
    ensures
        a == (if n < 0 { -n } else { n as int }),
{
    if n < 0 {
        (-(n + 1)) as u64 + 1
    } else {
        n as u64
    }
}

/// Appends the decimal digits of `n`.
pub fn push_decimal(out: &mut String, n: u64)
    ensures
        final(out)@ == old(out)@ + decimal(n as nat),
    decreases n,
{
    if n >= 10 {
        push_decimal(out, n / 10);
    }
    out.append(digit_str(n % 10));
    assert(out@ =~= old(out)@ + decimal(n as nat));
}

/// Appends the decimal digits of `n`, after a minus sign where `n` is
/// negative.
pub fn push_signed_decimal(out: &mut String, n: i64)
    ensures
        final(out)@ == old(out)@ + signed_decimal(n as int),
{
    if n < 0 {
        out.append("-");
        proof {
            reveal_strlit("-");
        }
    }
    push_decimal(out, magnitude(n));
    assert(out@ =~= old(out)@ + signed_decimal(n as int));
}

/// Appends the decimal digits of `n`, with a zero before a single digit.
pub fn push_padded(out: &mut String, n: u64)
    ensures
        final(out)@ == old(out)@ + padded(n as nat),
{
    if n < 10 {
        out.append("0");
        proof {
            reveal_strlit("0");
        }
    }
    push_decimal(out, n);
    assert(out@ =~= old(out)@ + padded(n as nat));
}

/// Appends `m` thousandths as a decimal number.
pub fn push_thousandths(out: &mut String, m: i64)
    ensures
        final(out)@ == old(out)@ + thousandths(m as int),
{
    let a = magnitude(m);
    if m < 0 {
        out.append("-");
    }
    push_decimal(out, a / 1000);
    let f = a % 1000;
    if f != 0 {
        out.append(".");
        out.append(digit_str(f / 100));
        if f % 100 != 0 {
            out.append(digit_str(f / 10 % 10));
            if f % 10 != 0 {
                out.append(digit_str(f % 10));
            }
        }
    }
    proof {
        reveal_strlit("-");
        reveal_strlit(".");
        assert(out@ =~= old(out)@ + thousandths(m as int));
    }
}

/// `c` is one of the ten digits.
pub open spec fn is_digit(c: char) -> bool {
    '0' as int <= c as int <= '9' as int
}

/// Every character of `s` is a digit.
pub open spec fn all_digits(s: Seq<char>) -> bool {
    forall|i: int| 0 <= i < s.len() ==> is_digit(#[trigger] s[i])
}

/// The number that a sequence of digits stands for.
pub open spec fn digits_value(s: Seq<char>) -> nat
    decreases s.len(),
{
    if s.len() == 0 {
        0
    } else {
        (digits_value(s.drop_last()) * 10 + (s.last() as int - '0' as int)) as nat
    }
}

/// The decimal digits of a number are digits, at least one, and stand for
/// the number.
pub proof fn lemma_decimal_digits(n: nat)
    ensures
        decimal(n).len() >= 1,
        all_digits(decimal(n)),
        digits_value(decimal(n)) == n,
    decreases n,
{
    assert(decimal(n).last() as int == '0' as int + n % 10);
    if n < 10 {
        assert(decimal(n).drop_last() =~= Seq::<char>::empty());
        assert(digits_value(Seq::<char>::empty()) == 0);
    } else {
        lemma_decimal_digits(n / 10);
        assert(decimal(n).drop_last() =~= decimal(n / 10));
    }
}

/// Different numbers have different decimal digits.
pub proof fn lemma_decimal_injective(m: nat, n: nat)
    requires
        decimal(m) == decimal(n),
    ensures
        m == n,
{
    lemma_decimal_digits(m);
    lemma_decimal_digits(n);
}

proof fn lemma_fraction_digits(f: nat)
    requires
        0 < f < 1000,
    ensures
        1 <= fraction(f).len() <= 3,
        all_digits(fraction(f)),
{
}

proof fn lemma_fraction_injective(f: nat, g: nat)
    requires
        0 < f < 1000,
        0 < g < 1000,
        fraction(f) == fraction(g),
    ensures
        f == g,
{
    let s = fraction(f);
    let t = fraction(g);
    assert(s.len() == t.len());
    assert(s[0] as int == '0' as int + f / 100 && t[0] as int == '0' as int + g / 100);
    if s.len() >= 2 {
        assert(s[1] as int == '0' as int + f / 10 % 10 && t[1] as int == '0' as int + g / 10 % 10);
    }
    if s.len() >= 3 {
        assert(s[2] as int == '0' as int + f % 10 && t[2] as int == '0' as int + g % 10);
    }
}

/// A text is cut at the first separator in one way only.
pub proof fn lemma_split_unique(a1: Seq<char>, b1: Seq<char>, a2: Seq<char>, b2: Seq<char>, sep: char)
    requires
        forall|i: int| 0 <= i < a1.len() ==> a1[i] != sep,
        forall|i: int| 0 <= i < a2.len() ==> a2[i] != sep,
        a1 + seq![sep] + b1 == a2 + seq![sep] + b2,
    ensures
        a1 == a2,
        b1 == b2,
{
    let s = a1 + seq![sep] + b1;
    let t = a2 + seq![sep] + b2;
    assert(s.len() == t.len());
    if a1.len() < a2.len() {
        assert(s[a1.len() as int] == sep);
        assert(t[a1.len() as int] == a2[a1.len() as int]);
    } else if a2.len() < a1.len() {
        assert(t[a2.len() as int] == sep);
        assert(s[a2.len() as int] == a1[a2.len() as int]);
    }
    assert(a1.len() == a2.len());
    assert forall|i: int| 0 <= i < a1.len() implies a1[i] == a2[i] by {
        assert(s[i] == a1[i]);
        assert(t[i] == a2[i]);
    }
    assert(a1 =~= a2);
    assert(s.len() == a1.len() + 1 + b1.len());
    assert(t.len() == a2.len() + 1 + b2.len());
    assert(b1.len() == b2.len());
    assert forall|i: int| 0 <= i < b1.len() implies b1[i] == b2[i] by {
        assert(s[a1.len() + 1 + i] == b1[i]);
        assert(t[a2.len() + 1 + i] == b2[i]);
    }
    assert(b1 =~= b2);
}

proof fn lemma_thousandths_unsigned_shape(a: nat)
    ensures
        thousandths_unsigned(a).len() >= 1,
        is_digit(thousandths_unsigned(a)[0]),
        forall|i: int|
            0 <= i < thousandths_unsigned(a).len() ==> is_digit(#[trigger] thousandths_unsigned(a)[i])
                || thousandths_unsigned(a)[i] == '.',
{
    lemma_decimal_digits(a / 1000);
    if a % 1000 != 0 {
        lemma_fraction_digits(a % 1000);
    }
}

proof fn lemma_thousandths_unsigned_injective(a: nat, b: nat)
    requires
        thousandths_unsigned(a) == thousandths_unsigned(b),
    ensures
        a == b,
{
    let wa = decimal(a / 1000);
    let wb = decimal(b / 1000);
    lemma_decimal_digits(a / 1000);
    lemma_decimal_digits(b / 1000);
    if a % 1000 == 0 && b % 1000 == 0 {
        lemma_decimal_injective(a / 1000, b / 1000);
    } else if a % 1000 != 0 && b % 1000 != 0 {
        lemma_split_unique(wa, fraction(a % 1000), wb, fraction(b % 1000), '.');
        lemma_decimal_injective(a / 1000, b / 1000);
        lemma_fraction_injective(a % 1000, b % 1000);
    } else if a % 1000 != 0 {
        let s = wa + seq!['.'] + fraction(a % 1000);
        assert(s[wa.len() as int] == '.');
        assert(is_digit(wb[wa.len() as int]));
    } else {
        let s = wb + seq!['.'] + fraction(b % 1000);
        assert(s[wb.len() as int] == '.');
        assert(is_digit(wa[wb.len() as int]));
    }
}

/// The text of thousandths holds digits, points and minus signs only.
pub proof fn lemma_thousandths_chars(m: int)
    ensures
        thousandths(m).len() >= 1,
        forall|i: int|
            0 <= i < thousandths(m).len() ==> is_digit(#[trigger] thousandths(m)[i]) || thousandths(
                m,
            )[i] == '.' || thousandths(m)[i] == '-',
{
    if m < 0 {
        lemma_thousandths_unsigned_shape((-m) as nat);
        let u = thousandths_unsigned((-m) as nat);
        assert forall|i: int| 0 <= i < thousandths(m).len() implies is_digit(
            #[trigger] thousandths(m)[i],
        ) || thousandths(m)[i] == '.' || thousandths(m)[i] == '-' by {
            if i > 0 {
                assert(thousandths(m)[i] == u[i - 1]);
            }
        }
    } else {
        lemma_thousandths_unsigned_shape(m as nat);
    }
}

/// Different numbers of thousandths have different texts.
pub proof fn lemma_thousandths_injective(m: int, n: int)
    requires
        thousandths(m) == thousandths(n),
    ensures
        m == n,
{
    let um = thousandths_unsigned((if m < 0 { -m } else { m }) as nat);
    let un = thousandths_unsigned((if n < 0 { -n } else { n }) as nat);
    lemma_thousandths_unsigned_shape((if m < 0 { -m } else { m }) as nat);
    lemma_thousandths_unsigned_shape((if n < 0 { -n } else { n }) as nat);
    if m < 0 && n < 0 {
        assert(um =~= thousandths(m).subrange(1, thousandths(m).len() as int));
        assert(un =~= thousandths(n).subrange(1, thousandths(n).len() as int));
        lemma_thousandths_unsigned_injective((-m) as nat, (-n) as nat);
    } else if m >= 0 && n >= 0 {
        lemma_thousandths_unsigned_injective(m as nat, n as nat);
    } else if m < 0 {
        assert(thousandths(m)[0] == '-');
        assert(is_digit(thousandths(n)[0]));
    } else {
        assert(thousandths(n)[0] == '-');
        assert(is_digit(thousandths(m)[0]));
    }
}

} // verus!

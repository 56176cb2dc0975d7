//! Texts of numbers: what they look like, and how to produce them.

use vstd::prelude::*;

verus! {

/// The decimal digit `d`, for `d < 10`.
pub open spec fn digit(d: int) -> char {
    (48 + d) as char
}

/// The lower-case hexadecimal digit `d`, for `d < 16`.
pub open spec fn hex_digit(d: int) -> char {
    if d < 10 {
        (48 + d) as char
    } else {
        (87 + d) as char
    }
}

/// `n` in decimal, without leading zeros.
pub open spec fn decimal(n: nat) -> Seq<char>
    decreases n,
{
    if n < 10 {
        seq![digit(n as int)]
    } else {
        decimal(n / 10).push(digit((n % 10) as int))
    }
}

/// `v` in decimal, with a minus sign in front where it is negative.
pub open spec fn signed_decimal(v: int) -> Seq<char> {
    if v < 0 {
        seq!['-'] + decimal((-v) as nat)
    } else {
        decimal(v as nat)
    }
}

/// `n` as exactly three decimal digits, for `n < 1000`.
pub open spec fn three_digits(n: int) -> Seq<char> {
    seq![digit(n / 100), digit(n / 10 % 10), digit(n % 10)]
}

/// `n` in decimal, with a separator between groups of three digits.
pub open spec fn grouped(n: nat, separator: Seq<char>) -> Seq<char>
    decreases n,
{
    if n < 1000 {
        decimal(n)
    } else {
        grouped(n / 1000, separator) + separator + three_digits((n % 1000) as int)
    }
}

/// `v` in decimal, with a separator between groups of three digits and a minus sign in
/// front where it is negative.
pub open spec fn grouped_decimal(v: int, separator: Seq<char>) -> Seq<char> {
    if v < 0 {
        seq!['-'] + grouped((-v) as nat, separator)
    } else {
        grouped(v as nat, separator)
    }
}

/// The number that a sequence of decimal digits denotes.
pub open spec fn decimal_value(s: Seq<char>) -> int
    decreases s.len(),
{
    if s.len() == 0 {
        0
    } else {
        10 * decimal_value(s.drop_last()) + (s.last() as int - 48)
    }
}

/// `n` as exactly two decimal digits, for `n < 100`.
pub open spec fn two_digits(n: int) -> Seq<char> {
    seq![digit(n / 10), digit(n % 10)]
}

/// `n` in decimal, filled up with zeros on the left to at least four digits.
pub open spec fn four_digits(n: nat) -> Seq<char> {
    if n < 10 {
        seq!['0', '0', '0'] + decimal(n)
    } else if n < 100 {
        seq!['0', '0'] + decimal(n)
    } else if n < 1000 {
        seq!['0'] + decimal(n)
    } else {
        decimal(n)
    }
}

/// The lowest `count` hexadecimal digits of `n`, most significant first.
pub open spec fn hex_digits(n: nat, count: nat) -> Seq<char>
    decreases count,
{
    if count == 0 {
        seq![]
    } else {
        hex_digits(n / 16, (count - 1) as nat).push(hex_digit((n % 16) as int))
    }
}

/// The text of a truth value.
pub open spec fn bool_text(b: bool) -> Seq<char> {
    if b {
        "true"@
    } else {
        "false"@
    }
}

/// Reading the decimal text of a number gives that number back.
pub proof fn decimal_reads_back(n: nat)
    ensures
        decimal_value(decimal(n)) == n,
    decreases n,
{
    reveal_with_fuel(decimal_value, 2);
    if n < 10 {
        assert(decimal(n).drop_last() =~= Seq::<char>::empty());
    } else {
        decimal_reads_back(n / 10);
        assert(decimal(n).drop_last() =~= decimal(n / 10));
    }
}

/// The first character of a decimal text is a digit, not a sign.
proof fn decimal_starts_with_digit(n: nat)
    ensures
        decimal(n).len() > 0,
        decimal(n)[0] != '-',
    decreases n,
{
    if n >= 10 {
        decimal_starts_with_digit(n / 10);
    }
}

/// The text of an integer is not empty.
pub proof fn signed_decimal_is_not_empty(v: int)
    ensures
        signed_decimal(v).len() > 0,
{
    decimal_starts_with_digit(
        if v < 0 {
            (-v) as nat
        } else {
            v as nat
        },
    );
}

/// Different integers have different texts.
pub proof fn signed_decimal_is_injective(v: int, w: int)
    ensures
        signed_decimal(v) == signed_decimal(w) ==> v == w,
{
    if signed_decimal(v) == signed_decimal(w) {
        let (m, n): (nat, nat) = (if v < 0 { (-v) as nat } else { v as nat }, if w < 0 {
            (-w) as nat
        } else {
            w as nat
        });
        decimal_starts_with_digit(m);
        decimal_starts_with_digit(n);
        assert(signed_decimal(v)[0] == signed_decimal(w)[0]);
        assert((v < 0) == (w < 0));
        if v < 0 {
            assert(signed_decimal(v).skip(1) =~= decimal(m));
            assert(signed_decimal(w).skip(1) =~= decimal(n));
        }
        decimal_reads_back(m);
        decimal_reads_back(n);
    }
}

/// Without a separator, grouped digits are those of the plain decimal text.
pub proof fn grouping_by_nothing(v: int)
    ensures
        grouped_decimal(v, Seq::empty()) == signed_decimal(v),
{
    let magnitude: nat = if v < 0 {
        (-v) as nat
    } else {
        v as nat
    };
    ungrouped(magnitude);
}

/// Without a separator, grouped digits are those of the plain decimal text.
proof fn ungrouped(n: nat)
    ensures
        grouped(n, Seq::empty()) == decimal(n),
    decreases n,
{
    if n >= 1000 {
        ungrouped(n / 1000);
        reveal_with_fuel(decimal, 4);
        assert(n / 10 / 10 / 10 == n / 1000);
        assert(n / 10 % 10 == n % 1000 / 10 % 10);
        assert(n / 10 / 10 % 10 == n % 1000 / 100);
        assert(n % 1000 % 10 == n % 10);
        assert(grouped(n, Seq::empty()) =~= decimal(n));
    }
}

/// Appends the decimal digit `d`.
fn push_digit(out: &mut String, d: u64)
    requires
        d < 10,
    ensures
        final(out)@ == old(out)@.push(digit(d as int)),
{
    proof {
        reveal_strlit("0");
        reveal_strlit("1");
        reveal_strlit("2");
        reveal_strlit("3");
        reveal_strlit("4");
        reveal_strlit("5");
        reveal_strlit("6");
        reveal_strlit("7");
        reveal_strlit("8");
        reveal_strlit("9");
    }
    let piece: &str = match d {
        0 => "0",
        1 => "1",
        2 => "2",
        3 => "3",
        4 => "4",
        5 => "5",
        6 => "6",
        7 => "7",
        8 => "8",
        _ => "9",
    };
    assert(piece@ =~= seq![digit(d as int)]);
    out.append(piece);
    assert(out@ =~= old(out)@.push(digit(d as int)));
}

/// Appends `n` in decimal.
pub fn push_decimal(out: &mut String, n: u64)
    ensures
        final(out)@ == old(out)@ + decimal(n as nat),
    decreases n,
{
    if n >= 10 {
        push_decimal(out, n / 10);
    }
    push_digit(out, n % 10);
    assert(out@ =~= old(out)@ + decimal(n as nat));
}

/// The decimal text of an integer, with a minus sign where it is negative.
pub fn integer_to_string(v: i64) -> (s: String)
    ensures
        s@ == signed_decimal(v as int),
{
    let mut out = String::new();
    if v < 0 {
        proof {
            reveal_strlit("-");
        }
        out.append("-");
        let magnitude: u64 = (-(v + 1)) as u64 + 1;
        push_decimal(&mut out, magnitude);
        assert(out@ =~= signed_decimal(v as int));
    } else {
        push_decimal(&mut out, v as u64);
        assert(out@ =~= signed_decimal(v as int));
    }
    out
}

/// `"true"` or `"false"`.
pub fn bool_to_string(b: bool) -> (s: String)
    ensures
        s@ == bool_text(b),
{
    if b {
        "true".to_string()
    } else {
        "false".to_string()
    }
}

} // verus!

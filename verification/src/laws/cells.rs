//! What holds of the texts of cells.

use super::dates::{
    date_text_has_its_digits, four_digit_years_are_numbered, stamp_text_has_its_digits,
};
use crate::calendar::{date_text_is_civil, pow10, stamp_at, CivilDate};
use crate::column::{
    cell_text, f32_printed, f64_printed, guid_text, lacks_value, renderable, ColumnData, DateTime,
    DateTime2,
};
use crate::text::{
    bool_text, decimal, decimal_reads_back, decimal_value, hex_digit, hex_digits, signed_decimal,
};
use std::borrow::Cow;
use vstd::arithmetic::power::pow;
use vstd::prelude::*;

verus! {

/// The number that decimal digits denote is zero for none of them, and one more digit
/// multiplies it by ten and adds the digit.
pub proof fn decimal_value_goes_digit_by_digit(s: Seq<char>, c: char)
    ensures
        decimal_value(Seq::empty()) == 0,
        decimal_value(s.push(c)) == 10 * decimal_value(s) + (c as int - '0' as int),
{
    assert(s.push(c).drop_last() =~= s);
}

/// A decimal text consists of digits, of which the first is zero only where it is the
/// only one.
proof fn decimal_has_digits(n: nat)
    ensures
        decimal(n).len() > 0,
        forall|i: int| 0 <= i < decimal(n).len() ==> '0' <= #[trigger] decimal(n)[i] <= '9',
        decimal(n)[0] == '0' ==> n == 0 && decimal(n).len() == 1,
    decreases n,
{
    if n >= 10 {
        decimal_has_digits(n / 10);
    }
}

/// The text of an integer reads back as the integer in the cell, whatever the width of
/// the cell: a minus sign exactly where it is negative, then digits without a leading
/// zero that denote its magnitude.
pub proof fn integer_text_reads_back(data: ColumnData<'_>, v: int)
    requires
        ({
            ||| data matches ColumnData::U8(Some(x)) && x == v
            ||| data matches ColumnData::I16(Some(x)) && x == v
            ||| data matches ColumnData::I32(Some(x)) && x == v
            ||| data matches ColumnData::I64(Some(x)) && x == v
        }),
    ensures
        ({
            let text = cell_text(data);
            let digits = if v < 0 {
                text.skip(1)
            } else {
                text
            };
            &&& v < 0 <==> text.len() > 0 && text[0] == '-'
            &&& digits.len() > 0
            &&& forall|i: int| 0 <= i < digits.len() ==> '0' <= #[trigger] digits[i] <= '9'
            &&& digits[0] == '0' ==> digits.len() == 1 && v == 0
            &&& decimal_value(digits) == if v < 0 {
                -v
            } else {
                v
            }
        }),
{
    let magnitude: nat = if v < 0 {
        (-v) as nat
    } else {
        v as nat
    };
    decimal_has_digits(magnitude);
    decimal_reads_back(magnitude);
    assert(cell_text(data) == signed_decimal(v));
    if v < 0 {
        assert(cell_text(data).skip(1) =~= decimal(magnitude));
    }
}

/// The texts of integers are built digit by digit, whatever the width of their cells:
/// below ten it is the digit alone, from ten on the last digit follows the text of the
/// tenth part, and below zero a minus sign precedes the text of the opposite.
pub proof fn integer_text_goes_digit_by_digit(
    data: ColumnData<'_>,
    v: int,
    other: ColumnData<'_>,
    w: int,
)
    requires
        ({
            ||| data matches ColumnData::U8(Some(x)) && x == v
            ||| data matches ColumnData::I16(Some(x)) && x == v
            ||| data matches ColumnData::I32(Some(x)) && x == v
            ||| data matches ColumnData::I64(Some(x)) && x == v
        }),
        ({
            ||| other matches ColumnData::U8(Some(x)) && x == w
            ||| other matches ColumnData::I16(Some(x)) && x == w
            ||| other matches ColumnData::I32(Some(x)) && x == w
            ||| other matches ColumnData::I64(Some(x)) && x == w
        }),
    ensures
        v == w ==> cell_text(data) == cell_text(other),
        0 <= v < 10 ==> cell_text(data) == seq![('0' as int + v) as char],
        v >= 10 && w == v / 10 ==> cell_text(data) == cell_text(other).push(
            ('0' as int + v % 10) as char,
        ),
        v < 0 && w == -v ==> cell_text(data) == seq!['-'] + cell_text(other),
{
    assert(cell_text(data) == signed_decimal(v));
    assert(cell_text(other) == signed_decimal(w));
}

/// The text of a truth value is the word for it.
pub proof fn truth_values_have_their_words(b: bool)
    ensures
        bool_text(b) == cell_text(ColumnData::Bit(Some(b))),
        cell_text(ColumnData::Bit(Some(b))) == if b {
            seq!['t', 'r', 'u', 'e']
        } else {
            seq!['f', 'a', 'l', 's', 'e']
        },
{
    reveal_strlit("true");
    reveal_strlit("false");
    assert("true"@ =~= seq!['t', 'r', 'u', 'e']);
    assert("false"@ =~= seq!['f', 'a', 'l', 's', 'e']);
}

/// A text stays as it is, and a floating-point number has the text that the standard
/// library prints for exactly its bits.
pub proof fn texts_and_floats_stay_as_they_are(s: Cow<'_, str>, single: u32, double: u64)
    ensures
        cell_text(ColumnData::String(Some(s))) == s@,
        cell_text(ColumnData::F32(Some(single))) == seq![f32_printed(single).first] + f32_printed(
            single,
        ).rest,
        cell_text(ColumnData::F64(Some(double))) == seq![f64_printed(double).first] + f64_printed(
            double,
        ).rest,
{
}

/// `NULL` of every type is the empty text, and so is every value of a type without a
/// text form; these are the cells that lack a value, and no others.
pub proof fn nulls_have_the_empty_text(data: ColumnData<'_>)
    ensures
        lacks_value(data) <==> match data {
            ColumnData::U8(v) => v == None::<u8>,
            ColumnData::I16(v) => v == None::<i16>,
            ColumnData::I32(v) => v == None::<i32>,
            ColumnData::I64(v) => v == None::<i64>,
            ColumnData::F32(v) => v == None::<u32>,
            ColumnData::F64(v) => v == None::<u64>,
            ColumnData::Bit(v) => v == None::<bool>,
            ColumnData::String(v) => v is None,
            ColumnData::Guid(v) => v == None::<u128>,
            ColumnData::DateTime(v) => v == None::<DateTime>,
            ColumnData::DateTime2(v) => v == None::<DateTime2>,
            ColumnData::Date(v) => v == None::<u32>,
            ColumnData::Binary => true,
            ColumnData::Numeric => true,
            ColumnData::Xml => true,
            ColumnData::SmallDateTime => true,
            ColumnData::Time => true,
            ColumnData::DateTimeOffset => true,
        },
        match data {
            ColumnData::U8(None) => cell_text(data).len() == 0,
            ColumnData::I16(None) => cell_text(data).len() == 0,
            ColumnData::I32(None) => cell_text(data).len() == 0,
            ColumnData::I64(None) => cell_text(data).len() == 0,
            ColumnData::F32(None) => cell_text(data).len() == 0,
            ColumnData::F64(None) => cell_text(data).len() == 0,
            ColumnData::Bit(None) => cell_text(data).len() == 0,
            ColumnData::String(None) => cell_text(data).len() == 0,
            ColumnData::Guid(None) => cell_text(data).len() == 0,
            ColumnData::DateTime(None) => cell_text(data).len() == 0,
            ColumnData::DateTime2(None) => cell_text(data).len() == 0,
            ColumnData::Date(None) => cell_text(data).len() == 0,
            ColumnData::Binary => cell_text(data).len() == 0,
            ColumnData::Numeric => cell_text(data).len() == 0,
            ColumnData::Xml => cell_text(data).len() == 0,
            ColumnData::SmallDateTime => cell_text(data).len() == 0,
            ColumnData::Time => cell_text(data).len() == 0,
            ColumnData::DateTimeOffset => cell_text(data).len() == 0,
            _ => true,
        },
{
}

/// Each of the lowest hexadecimal digits of a number is the remainder by 16 of the
/// number divided by the power of 16 of its place.
proof fn hex_digits_by_place(n: nat, count: nat, k: int)
    requires
        0 <= k < count,
    ensures
        hex_digits(n, count).len() == count,
        hex_digits(n, count)[k] == hex_digit(n as int / pow(16, (count - 1 - k) as nat) % 16),
    decreases count,
{
    let shorter = hex_digits(n / 16, (count - 1) as nat);
    hex_digits_len(n / 16, (count - 1) as nat);
    reveal(pow);
    if k < count - 1 {
        let p = pow(16, (count - 2 - k) as nat);
        hex_digits_by_place(n / 16, (count - 1) as nat, k);
        vstd::arithmetic::power::lemma_pow_positive(16, (count - 2 - k) as nat);
        assert(pow(16, (count - 1 - k) as nat) == 16 * p);
        vstd::arithmetic::div_mod::lemma_div_denominator(n as int, 16, p);
        assert(hex_digits(n, count)[k] == shorter[k]);
    } else {
        assert(pow(16, 0) == 1);
    }
}

proof fn hex_digits_len(n: nat, count: nat)
    ensures
        hex_digits(n, count).len() == count,
    decreases count,
{
    if count > 0 {
        hex_digits_len(n / 16, (count - 1) as nat);
    }
}

/// The text of a GUID has 36 characters: its 32 hexadecimal digits, most significant
/// first and in lower case, with hyphens after the eighth, twelfth, sixteenth and
/// twentieth.
pub proof fn guid_text_has_its_digits(guid: u128, k: int)
    requires
        0 <= k < 32,
    ensures
        ({
            let text = cell_text(ColumnData::Guid(Some(guid)));
            let place = if k < 8 {
                k
            } else if k < 12 {
                k + 1
            } else if k < 16 {
                k + 2
            } else if k < 20 {
                k + 3
            } else {
                k + 4
            };
            let d = guid as int / pow(16, (31 - k) as nat) % 16;
            &&& text.len() == 36
            &&& text[8] == '-' && text[13] == '-' && text[18] == '-' && text[23] == '-'
            &&& text[place] == if d < 10 {
                ('0' as int + d) as char
            } else {
                ('a' as int + d - 10) as char
            }
        }),
{
    hex_digits_by_place(guid as nat, 32, k);
    assert(cell_text(ColumnData::Guid(Some(guid))) == guid_text(guid));
}

/// A `date` of a year of four digits prints as the digits of its year, month and day,
/// with hyphens between them; every `date` prints as the day so many days after 1
/// January of the year 1.
pub proof fn date_has_its_digits(days: u32, c: CivilDate)
    requires
        c.valid(),
        c.day_number() == 1 + days,
    ensures
        cell_text(ColumnData::Date(Some(days))) == c.text(),
        0 <= c.year <= 9999 ==> cell_text(ColumnData::Date(Some(days))) == seq![
            (48 + c.year / 1000) as char,
            (48 + c.year / 100 % 10) as char,
            (48 + c.year / 10 % 10) as char,
            (48 + c.year % 10) as char,
            '-',
            (48 + c.month / 10) as char,
            (48 + c.month % 10) as char,
            '-',
            (48 + c.day / 10) as char,
            (48 + c.day % 10) as char,
        ],
{
    date_text_is_civil(c);
    if 0 <= c.year <= 9999 {
        date_text_has_its_digits(c);
    }
}

/// A `datetime` prints as the day so many days after 1 January 1900, a blank, and the
/// hour, minute and second of the day that its three-hundredths of a second make, cut
/// to whole seconds and to one day.
pub proof fn datetime_has_its_digits(
    d: DateTime,
    c: CivilDate,
    hour: int,
    minute: int,
    second: int,
)
    requires
        -95_746_129 <= 693_596 + d.days <= 95_745_399,
        c.valid(),
        c.day_number() == 693_596 + d.days,
        0 <= hour < 24,
        0 <= minute < 60,
        0 <= second < 60,
        d.seconds_fragments as int / 300 % 86_400 == hour * 3600 + minute * 60 + second,
    ensures
        cell_text(ColumnData::DateTime(Some(d))) == c.text() + seq![
            ' ',
            (48 + hour / 10) as char,
            (48 + hour % 10) as char,
            ':',
            (48 + minute / 10) as char,
            (48 + minute % 10) as char,
            ':',
            (48 + second / 10) as char,
            (48 + second % 10) as char,
        ],
{
    date_text_is_civil(c);
    let nanoseconds = d.seconds_fragments * 1_000_000_000 / 300;
    assert(nanoseconds / 1_000_000_000 == d.seconds_fragments as int / 300);
    stamp_text_has_its_digits(stamp_at(693_596 + d.days, nanoseconds), hour, minute, second);
}

/// The number of nanoseconds in a unit of a time scale, and of such units in a second.
proof fn scale_units(scale: nat, increments: int)
    requires
        scale <= 9,
        0 <= increments,
    ensures
        increments * pow10((9 - scale) as nat) / 1_000_000_000 == increments / pow(10, scale),
        scale <= 7 && increments < 86_400 * pow(10, scale) ==> increments * pow10(
            (9 - scale) as nat,
        ) < 86_400_000_000_000,
        pow10((9 - scale) as nat) == pow(10, (9 - scale) as nat),
{
    reveal_with_fuel(pow, 10);
    reveal_with_fuel(pow10, 10);
    let (unit, ticks) = (pow10((9 - scale) as nat) as int, pow(10, scale));
    if scale == 0 {
        assert(unit * ticks == 1_000_000_000) by (nonlinear_arith)
            requires
                unit == 1_000_000_000int,
                ticks == 1int,
        ;
    } else if scale == 1 {
        assert(unit * ticks == 1_000_000_000) by (nonlinear_arith)
            requires
                unit == 100_000_000int,
                ticks == 10int,
        ;
    } else if scale == 2 {
        assert(unit * ticks == 1_000_000_000) by (nonlinear_arith)
            requires
                unit == 10_000_000int,
                ticks == 100int,
        ;
    } else if scale == 3 {
        assert(unit * ticks == 1_000_000_000) by (nonlinear_arith)
            requires
                unit == 1_000_000int,
                ticks == 1_000int,
        ;
    } else if scale == 4 {
        assert(unit * ticks == 1_000_000_000) by (nonlinear_arith)
            requires
                unit == 100_000int,
                ticks == 10_000int,
        ;
    } else if scale == 5 {
        assert(unit * ticks == 1_000_000_000) by (nonlinear_arith)
            requires
                unit == 10_000int,
                ticks == 100_000int,
        ;
    } else if scale == 6 {
        assert(unit * ticks == 1_000_000_000) by (nonlinear_arith)
            requires
                unit == 1_000int,
                ticks == 1_000_000int,
        ;
    } else if scale == 7 {
        assert(unit * ticks == 1_000_000_000) by (nonlinear_arith)
            requires
                unit == 100int,
                ticks == 10_000_000int,
        ;
    } else if scale == 8 {
        assert(unit * ticks == 1_000_000_000) by (nonlinear_arith)
            requires
                unit == 10int,
                ticks == 100_000_000int,
        ;
    } else {
        assert(unit * ticks == 1_000_000_000) by (nonlinear_arith)
            requires
                unit == 1int,
                ticks == 1_000_000_000int,
        ;
    }
    assert(unit > 0 && ticks > 0);
    vstd::arithmetic::div_mod::lemma_div_multiples_vanish_quotient(unit, increments, ticks);
    assert(unit * increments == increments * unit) by (nonlinear_arith);
    if increments < 86_400 * ticks {
        assert(increments * unit < 86_400 * (unit * ticks)) by (nonlinear_arith)
            requires
                increments < 86_400 * ticks,
                unit > 0,
        ;
    }
}

/// A `datetime2` prints as the day so many days after 1 January of the year 1, a blank,
/// and the hour, minute and second of the day that its increments make, cut to whole
/// seconds and to one day.
pub proof fn datetime2_has_its_digits(
    d: DateTime2,
    c: CivilDate,
    hour: int,
    minute: int,
    second: int,
)
    requires
        d.days < 16_777_216,
        d.scale <= 9,
        c.valid(),
        c.day_number() == 1 + d.days,
        0 <= hour < 24,
        0 <= minute < 60,
        0 <= second < 60,
        d.increments as int / pow(10, d.scale as nat) % 86_400 == hour * 3600 + minute * 60
            + second,
    ensures
        cell_text(ColumnData::DateTime2(Some(d))) == c.text() + seq![
            ' ',
            (48 + hour / 10) as char,
            (48 + hour % 10) as char,
            ':',
            (48 + minute / 10) as char,
            (48 + minute % 10) as char,
            ':',
            (48 + second / 10) as char,
            (48 + second % 10) as char,
        ],
{
    date_text_is_civil(c);
    scale_units(d.scale as nat, d.increments as int);
    let nanoseconds = d.increments * pow10((9 - d.scale) as nat);
    assert(nanoseconds / 1_000_000_000 == d.increments as int / pow(10, d.scale as nat));
    stamp_text_has_its_digits(stamp_at(1 + d.days, nanoseconds), hour, minute, second);
}

/// The powers of ten that time scales ask for are those powers.
pub proof fn powers_of_ten_are_powers(n: nat)
    requires
        n <= 9,
    ensures
        pow10(n) == pow(10, n),
{
    scale_units((9 - n) as nat, 0);
}

/// The decimal text of an integer is that of the cell that holds it.
pub proof fn integers_print_as_their_cells(v: i64)
    ensures
        signed_decimal(v as int) == cell_text(ColumnData::I64(Some(v))),
{
}

/// A cell has a text exactly where it is not a date, or a date whose days and time of
/// day can be counted: days of at most three bytes from the year 1, `datetime` days
/// within the calendar, and times of day of at most 9223372036854775807 nanoseconds.
pub proof fn cells_with_a_text(data: ColumnData<'_>)
    ensures
        renderable(data) <==> match data {
            ColumnData::Date(Some(days)) => days < 16_777_216,
            ColumnData::DateTime(Some(d)) => -95_746_129 <= 693_596 + d.days <= 95_745_399,
            ColumnData::DateTime2(Some(d)) => d.days < 16_777_216 && d.scale <= 9 && d.increments
                * pow(10, (9 - d.scale) as nat) <= 9_223_372_036_854_775_807,
            _ => true,
        },
{
    if let ColumnData::DateTime2(Some(d)) = data {
        if d.scale <= 9 {
            scale_units(d.scale as nat, d.increments as int);
        }
    }
}

/// Every date of the years 1 to 9999 has a text, as a `date`, as a `datetime` of any time
/// and as a `datetime2` of any scale up to seven and any time of the day; and so has
/// every cell of another type.
pub proof fn dates_of_four_digit_years_have_a_text(c: CivilDate, data: ColumnData<'_>)
    requires
        c.valid(),
        1 <= c.year <= 9999,
    ensures
        data matches ColumnData::Date(Some(days)) && 1 + days == c.day_number() ==> renderable(
            data,
        ),
        data matches ColumnData::DateTime(Some(d)) && 693_596 + d.days == c.day_number()
            ==> renderable(data),
        data matches ColumnData::DateTime2(Some(d)) && 1 + d.days == c.day_number() && d.scale <= 7
            && d.increments < 86_400 * pow(10, d.scale as nat) ==> renderable(data),
        !(data is Date || data is DateTime || data is DateTime2) ==> renderable(data),
{
    four_digit_years_are_numbered(c);
    if let ColumnData::DateTime2(Some(d)) = data {
        if d.scale <= 7 {
            scale_units(d.scale as nat, d.increments as int);
        }
    }
}

} // verus!

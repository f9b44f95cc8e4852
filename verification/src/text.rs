//! Numbers and columns as text.

use vstd::prelude::*;
use vstd::string::{StringExecFns, StrSliceExecFns};

verus! {

/// The character for a decimal digit.
pub open spec fn digit(d: int) -> char {
    (48 + d) as char
}

/// `n` in decimal, without leading zeros.
pub open spec fn decimal(n: int) -> Seq<char>
    decreases n,
{
    if n < 10 {
        seq![digit(n)]
    } else {
        decimal(n / 10).push(digit(n % 10))
    }
}

/// `n` in decimal, with a minus sign if it is negative.
pub open spec fn signed_decimal(n: int) -> Seq<char> {
    if n < 0 {
        "-"@ + decimal(-n)
    } else {
        decimal(n)
    }
}

/// The number that decimal digits spell.
pub open spec fn number_of(digits: Seq<char>) -> int
    decreases digits.len(),
{
    if digits.len() == 0 {
        0
    } else {
        number_of(digits.drop_last()) * 10 + (digits.last() as int - 48)
    }
}

fn digit_text(d: u128) -> (text: &'static str)
    requires
        d < 10,
    ensures
        text@ == seq![digit(d as int)],
{
    proof {
        reveal_strlit("0");
        reveal_strlit("1");
        reveal_strlit("2");
        reveal_strlit("3");
        reveal_strlit("4");
        reveal_strlit("5");
        reveal_strlit("6");
        reveal_strlit("7");
        reveal_strlit("8");
        reveal_strlit("9");
    }
    match d {
        0 => "0",
        1 => "1",
        2 => "2",
        3 => "3",
        4 => "4",
        5 => "5",
        6 => "6",
        7 => "7",
        8 => "8",
        _ => "9",
    }
}

/// `n` in decimal.
pub fn decimal_text(n: u128) -> (text: String)
    ensures
        text@ == decimal(n as int),
    decreases n,
{
    if n < 10 {
        digit_text(n).to_owned()
    } else {
        let mut text = decimal_text(n / 10);
        text.append(digit_text(n % 10));
        assert(text@ =~= decimal(n as int));
        text
    }
}

/// `n` in decimal, with its sign if negative.
pub fn signed_text(n: i64) -> (text: String)
    ensures
        text@ == signed_decimal(n as int),
{
    if n < 0 {
        let mut text = "-".to_owned();
        text.append(decimal_text((-(n as i128)) as u128).as_str());
        text
    } else {
        decimal_text(n as u128)
    }
}

/// `"true"` or `"false"`.
pub open spec fn bool_name(b: bool) -> Seq<char> {
    if b {
        "true"@
    } else {
        "false"@
    }
}

pub fn bool_text(b: bool) -> (text: &'static str)
    ensures
        text@ == bool_name(b),
{
    if b {
        "true"
    } else {
        "false"
    }
}

/// A run of spaces.
pub open spec fn spaces(n: int) -> Seq<char> {
    Seq::new(
        if n >= 0 {
            n as nat
        } else {
            0
        },
        |i: int| ' ',
    )
}

/// `text` filled up with spaces behind to `width` characters; longer text is left
/// as it is.
pub open spec fn left_aligned(text: Seq<char>, width: int) -> Seq<char> {
    text + spaces(width - text.len())
}

/// `text` in a column of `width` characters, spaces behind.
pub fn align_left(text: &str, width: usize) -> (out: String)
    ensures
        out@ == left_aligned(text@, width as int),
{
    let mut out = text.to_owned();
    let mut len: usize = text.unicode_len();
    proof {
        reveal_strlit(" ");
    }
    while len < width
        invariant
            out@ == text@ + spaces(len - text@.len()),
            text@.len() <= len,
            len <= width || len == text@.len(),
            " "@ == seq![' '],
        decreases width - len,
    {
        out.append(" ");
        len += 1;
        assert(out@ =~= text@ + spaces(len - text@.len()));
    }
    out
}

/// `n` in decimal with at least two digits.
pub open spec fn two_digits(n: int) -> Seq<char> {
    if n < 10 {
        "0"@ + decimal(n)
    } else {
        decimal(n)
    }
}

/// `n` in decimal with at least two digits.
pub fn two_digit_text(n: u64) -> (text: String)
    ensures
        text@ == two_digits(n as int),
{
    if n < 10 {
        let mut text = "0".to_owned();
        text.append(decimal_text(n as u128).as_str());
        text
    } else {
        decimal_text(n as u128)
    }
}

/// The texts that strings hold.
pub open spec fn texts(strings: Seq<String>) -> Seq<Seq<char>> {
    strings.map_values(|s: String| s@)
}

/// Decimal text spells the number it was made from, so no two numbers look alike.
pub proof fn decimal_spells_the_number(n: int)
    requires
        0 <= n,
    ensures
        number_of(decimal(n)) == n,
        decimal(n).len() >= 1,
        forall|i: int| 0 <= i < decimal(n).len() ==> '0' <= #[trigger] decimal(n)[i] <= '9',
    decreases n,
{
    if n < 10 {
        assert(decimal(n).drop_last() =~= Seq::empty());
        reveal_with_fuel(number_of, 2);
    } else {
        decimal_spells_the_number(n / 10);
        assert(decimal(n).drop_last() =~= decimal(n / 10));
    }
}

/// A column is exactly as wide as asked for, or as its text where that is wider.
pub proof fn columns_line_up(text: Seq<char>, width: int)
    requires
        0 <= width,
    ensures
        left_aligned(text, width).len() == if text.len() >= width {
            text.len() as int
        } else {
            width
        },
        left_aligned(text, width).take(text.len() as int) == text,
{
    assert(left_aligned(text, width).take(text.len() as int) =~= text);
}

/// Texts are those of the strings, one each, in order.
pub proof fn texts_are_the_strings(strings: Seq<String>)
    ensures
        texts(strings).len() == strings.len(),
        forall|i: int| 0 <= i < strings.len() ==> #[trigger] texts(strings)[i] == strings[i]@,
{
}

/// Decimal text is written highest digit first: a further digit goes behind what is there,
/// and only zero begins with a zero.
pub proof fn digits_go_behind(n: int, d: int)
    requires
        0 <= n,
        0 <= d < 10,
    ensures
        decimal(d) == seq![(48 + d) as char],
        n > 0 ==> decimal(10 * n + d) == decimal(n).push((48 + d) as char),
        n > 0 ==> decimal(n)[0] != '0',
    decreases n,
{
    if n >= 10 {
        digits_go_behind(n / 10, n % 10);
        decimal_spells_the_number(n / 10);
    }
}

/// A negative number is a minus sign and what its opposite spells; any other is shown
/// without a sign.
pub proof fn signs_go_in_front(n: int)
    ensures
        n >= 0 ==> signed_decimal(n) == decimal(n),
        n < 0 ==> {
            &&& signed_decimal(n)[0] == '-'
            &&& signed_decimal(n).skip(1) == decimal(-n)
            &&& number_of(signed_decimal(n).skip(1)) == -n
        },
{
    reveal_strlit("-");
    if n < 0 {
        assert(signed_decimal(n).skip(1) =~= decimal(-n));
        decimal_spells_the_number(-n);
    }
}

/// With at least two digits a number is still spelled as it is; below a hundred there are
/// exactly two.
pub proof fn two_digits_spell_the_number(n: int)
    requires
        0 <= n,
    ensures
        number_of(two_digits(n)) == n,
        two_digits(n).len() >= 2,
        n < 100 ==> two_digits(n).len() == 2,
        forall|i: int| 0 <= i < two_digits(n).len() ==> '0' <= #[trigger] two_digits(n)[i] <= '9',
        n >= 10 ==> two_digits(n) == decimal(n),
{
    reveal_strlit("0");
    decimal_spells_the_number(n);
    if n < 10 {
        reveal_with_fuel(number_of, 3);
        assert(two_digits(n) =~= seq!['0', digit(n)]);
        assert(two_digits(n).drop_last() =~= seq!['0']);
        assert(seq!['0'].drop_last() =~= Seq::empty());
    } else {
        digits_go_behind(n / 10, n % 10);
        decimal_spells_the_number(n / 10);
    }
}

/// What fills a column up is spaces.
pub proof fn columns_are_filled_with_spaces(text: Seq<char>, width: int, i: int)
    requires
        text.len() <= i < left_aligned(text, width).len(),
    ensures
        left_aligned(text, width)[i] == ' ',
{
}

/// The two truth values have their names.
pub proof fn truth_is_named(b: bool)
    ensures
        b ==> bool_name(b) == "true"@,
        !b ==> bool_name(b) == "false"@,
{
}

} // verus!

//! Text helpers: decimal numerals, quoted strings and the byte size of texts.

use vstd::prelude::*;
use vstd::string::*;
use vstd::utf8::*;

verus! {

/// The decimal digit `d`, for `0 <= d < 10`.
pub open spec fn digit(d: int) -> char {
    ('0' as int + d) as char
}

/// The decimal numeral of `n`: its digits, most significant first, behind a `-` if negative.
pub open spec fn decimal(n: int) -> Seq<char>
    decreases
            if n < 0 {
                1 - n
            } else {
                n
            },
{
    if n < 0 {
        seq!['-'] + decimal(-n)
    } else if n < 10 {
        seq![digit(n)]
    } else {
        decimal(n / 10).push(digit(n % 10))
    }
}

/// The number of bytes of a text in UTF-8.
pub open spec fn byte_len(text: Seq<char>) -> nat {
    encode_utf8(text).len()
}

fn digit_text(d: u128) -> (r: &'static str)
    requires
        d < 10,
    ensures
        r@ == seq![digit(d as int)],
{
    proof {
        reveal_strlit("0");
        reveal_strlit("1");
        reveal_strlit("2");
        reveal_strlit("3");
        reveal_strlit("4");
        reveal_strlit("5");
        reveal_strlit("6");
        reveal_strlit("7");
        reveal_strlit("8");
        reveal_strlit("9");
    }
    match d {
        0 => "0",
        1 => "1",
        2 => "2",
        3 => "3",
        4 => "4",
        5 => "5",
        6 => "6",
        7 => "7",
        8 => "8",
        _ => "9",
    }
}

/// The decimal numeral of a natural number.
fn natural_text(n: u128) -> (r: String)
    ensures
        r@ == decimal(n as int),
    decreases n,
{
    if n < 10 {
        digit_text(n).to_owned()
    } else {
        let mut r = natural_text(n / 10);
        r.append(digit_text(n % 10));
        proof {
            assert(decimal(n as int) =~= decimal(n as int / 10) + seq![digit(n as int % 10)]);
        }
        r
    }
}

/// The decimal numeral of an integer.
pub fn decimal_text(n: i64) -> (r: String)
    ensures
        r@ == decimal(n as int),
{
    if n < 0 {
        let mut r = "-".to_owned();
        let digits = natural_text((-(n as i128)) as u128);
        r.append(digits.as_str());
        proof {
            reveal_strlit("-");
            assert(r@ =~= seq!['-'] + decimal(-(n as int)));
        }
        r
    } else {
        natural_text(n as u128)
    }
}

/// The decimal numeral of a size.
pub fn size_text(n: usize) -> (r: String)
    ensures
        r@ == decimal(n as int),
{
    natural_text(n as u128)
}

/// What `format!("{:?}", text)` writes: the text in double quotes, with escapes.
pub uninterp spec fn str_debug(text: Seq<char>) -> Seq<char>;

/// Calls `<str as std::fmt::Debug>::fmt` through `format!`.
///
/// Trusted: the written form is a function of the text alone. Which characters are escaped, and how,
/// is not stated.
#[verifier::external_body]
pub(crate) fn debug_text(text: &str) -> (r: String)
    ensures
        r@ == str_debug(text@),
{
    format!("{text:?}")
}

/// `<str as PartialEq>::eq`.
///
/// Trusted: two string slices are equal exactly when they hold the same characters.
pub assume_specification[ <str as PartialEq>::eq ](a: &str, b: &str) -> (r: bool)
    ensures
        r == (a@ == b@),
;

} // verus!

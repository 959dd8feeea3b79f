//! Helpers for money and identifiers.

use crate::text::{trim, trimmed};
use vstd::prelude::*;

verus! {

/// What `str::to_uppercase` makes of a text: the text in upper case, by the
/// Unicode case mapping.
pub uninterp spec fn uppercase(text: Seq<char>) -> Seq<char>;

/// `str::to_uppercase`: the text in upper case.
#[verifier::external_body]
fn to_upper(text: &str) -> (upper: String)
    ensures
        upper@ == uppercase(text@),
{
    text.to_uppercase()
}

/// Where the sign of a currency stands beside an amount, and what it is.
#[derive(Debug, Clone, Copy, PartialEq, Eq, Structural)]
pub enum CurrencySign {
    /// A dollar sign before the amount.
    Dollar,
    /// A euro sign before the amount.
    Euro,
    /// A pound sign before the amount.
    Pound,
    /// The currency's own code behind the amount, after a space.
    Code,
}

/// The sign that goes with a currency code in upper case.
pub open spec fn sign_for(upper: Seq<char>) -> CurrencySign {
    if upper == "USD"@ {
        CurrencySign::Dollar
    } else if upper == "EUR"@ {
        CurrencySign::Euro
    } else if upper == "GBP"@ {
        CurrencySign::Pound
    } else {
        CurrencySign::Code
    }
}

/// The sign that goes with a currency code in upper case.
pub fn sign_of_code(upper: &str) -> (sign: CurrencySign)
    ensures
        sign == sign_for(upper@),
{
    let code = upper.to_owned();
    if code == "USD".to_owned() {
        CurrencySign::Dollar
    } else if code == "EUR".to_owned() {
        CurrencySign::Euro
    } else if code == "GBP".to_owned() {
        CurrencySign::Pound
    } else {
        CurrencySign::Code
    }
}

/// The sign that goes with a currency, whatever the case of its code.
pub fn currency_sign(currency: &str) -> (sign: CurrencySign)
    ensures
        sign == sign_for(uppercase(currency@)),
{
    let upper = to_upper(currency);
    sign_of_code(upper.as_str())
}

/// Whether a character is a currency sign or a thousands separator: `$`, the
/// euro sign, the pound sign or a comma.
pub open spec fn is_money_mark(c: char) -> bool {
    c == '$' || c == '\u{20ac}' || c == '\u{a3}' || c == ','
}

/// The number in an amount of money, as text: the amount without currency
/// signs and thousands separators, and then without white space at its ends.
pub open spec fn cleaned_amount(value: Seq<char>) -> Seq<char> {
    trimmed(value.filter(|c: char| !is_money_mark(c)))
}

/// Strips an amount of money down to its number: takes out currency signs
/// and thousands separators, then white space at the two ends.
pub fn clean_currency(value: &str) -> (cleaned: String)
    ensures
        cleaned@ == cleaned_amount(value@),
{
    let mut kept = String::new();
    for c in it: value.chars()
        invariant
            it.seq() == value@,
            kept@ == value@.take(it.index() as int).filter(|c: char| !is_money_mark(c)),
    {
        proof {
            let i = it.index() as int;
            reveal(Seq::filter);
            assert(value@.take(i + 1).drop_last() =~= value@.take(i));
        }
        if !(c == '$' || c == '\u{20ac}' || c == '\u{a3}' || c == ',') {
            kept.push(c);
        }
    }
    proof {
        assert(value@.take(value@.len() as int) =~= value@);
    }
    trim(kept.as_str())
}

/// The character of a hexadecimal digit, in lower case.
pub open spec fn hex_digit(d: nat) -> char {
    if d == 0 {
        '0'
    } else if d == 1 {
        '1'
    } else if d == 2 {
        '2'
    } else if d == 3 {
        '3'
    } else if d == 4 {
        '4'
    } else if d == 5 {
        '5'
    } else if d == 6 {
        '6'
    } else if d == 7 {
        '7'
    } else if d == 8 {
        '8'
    } else if d == 9 {
        '9'
    } else if d == 10 {
        'a'
    } else if d == 11 {
        'b'
    } else if d == 12 {
        'c'
    } else if d == 13 {
        'd'
    } else if d == 14 {
        'e'
    } else {
        'f'
    }
}

/// A number in hexadecimal notation, lower case, without leading zeros.
pub open spec fn hex(n: nat) -> Seq<char>
    decreases n,
{
    if n < 16 {
        seq![hex_digit(n)]
    } else {
        hex(n / 16).push(hex_digit(n % 16))
    }
}

/// The character of a hexadecimal digit.
fn digit_char(d: u128) -> (c: char)
    requires
        d < 16,
    ensures
        c == hex_digit(d as nat),
{
    if d == 0 {
        '0'
    } else if d == 1 {
        '1'
    } else if d == 2 {
        '2'
    } else if d == 3 {
        '3'
    } else if d == 4 {
        '4'
    } else if d == 5 {
        '5'
    } else if d == 6 {
        '6'
    } else if d == 7 {
        '7'
    } else if d == 8 {
        '8'
    } else if d == 9 {
        '9'
    } else if d == 10 {
        'a'
    } else if d == 11 {
        'b'
    } else if d == 12 {
        'c'
    } else if d == 13 {
        'd'
    } else if d == 14 {
        'e'
    } else {
        'f'
    }
}

/// Writes a number in hexadecimal notation, lower case, without leading
/// zeros.
pub fn to_hex(n: u128) -> (text: String)
    ensures
        text@ == hex(n as nat),
{
    let mut low_first: Vec<char> = Vec::new();
    let mut rest: u128 = n;
    while rest >= 16
        invariant
            hex(n as nat) == hex(rest as nat) + low_first@.reverse(),
        decreases rest,
    {
        let c = digit_char(rest % 16);
        proof {
            assert(hex((rest / 16) as nat).push(c) + low_first@.reverse() =~= hex(
                (rest / 16) as nat,
            ) + low_first@.push(c).reverse());
        }
        low_first.push(c);
        rest = rest / 16;
    }
    low_first.push(digit_char(rest));
    let mut text = String::new();
    let mut i: usize = low_first.len();
    while i > 0
        invariant
            i <= low_first@.len(),
            text@ == low_first@.reverse().take(low_first@.len() - i),
        decreases i,
    {
        proof {
            let r = low_first@.reverse();
            let k = low_first@.len() - i;
            assert(r.take(k + 1) =~= r.take(k).push(r[k]));
        }
        text.push(low_first[i - 1]);
        i = i - 1;
    }
    proof {
        let r = low_first@.reverse();
        assert(r.take(r.len() as int) =~= r);
    }
    text
}

} // verus!

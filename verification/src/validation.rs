//! Stateless checks of form fields.

use crate::text::{chars_of, is_blank, is_white_space, text_view, white_space};
use vstd::prelude::*;
use vstd::utf8::encode_utf8;

verus! {

/// The kind of check that a rule asks for.
#[derive(Debug, Clone, PartialEq, Eq, Structural)]
pub enum ValidationType {
    Required,
    Email,
    Phone,
    ZipCode,
    CreditCard,
    MinLength,
    MaxLength,
    Pattern,
}

/// A check of one field, with the message to show where it fails.
#[derive(Debug, Clone)]
pub struct ValidationRule {
    pub rule_type: ValidationType,
    pub param: Option<String>,
    pub message: String,
}

/// A failed check: the field and what to tell the user.
#[derive(Debug, Clone)]
pub struct ValidationError {
    pub field: String,
    pub message: String,
}

/// Whether a character is one of the ten ASCII digits.
pub open spec fn is_digit(c: char) -> bool {
    '0' <= c && c <= '9'
}

/// The number that an ASCII digit stands for.
pub open spec fn digit_value(c: char) -> nat {
    (c as nat - '0' as nat) as nat
}

/// The ASCII digits of a text, in their order.
pub open spec fn digits_of(text: Seq<char>) -> Seq<char> {
    text.filter(|c: char| is_digit(c))
}

/// Whether a text holds nothing but ASCII digits.
pub open spec fn all_digits(text: Seq<char>) -> bool {
    forall|i: int| 0 <= i < text.len() ==> is_digit(#[trigger] text[i])
}

/// The length of a text in bytes, as UTF-8.
pub open spec fn byte_len(text: Seq<char>) -> nat {
    encode_utf8(text).len()
}

/// Whether a text looks like an e-mail address: it holds an `@` and a dot, and
/// is at least five bytes long.
pub open spec fn is_email(text: Seq<char>) -> bool {
    text.contains('@') && text.contains('.') && byte_len(text) >= 5
}

/// Whether a text holds a phone number: at least ten digits.
pub open spec fn is_phone(text: Seq<char>) -> bool {
    digits_of(text).len() >= 10
}

/// Whether a text holds a US ZIP code: five digits, or nine.
pub open spec fn is_zipcode(text: Seq<char>) -> bool {
    digits_of(text).len() == 5 || digits_of(text).len() == 9
}

/// What a digit adds to the Luhn sum, by its place counted from the right,
/// the rightmost being place 0: every second digit counts double, less 9
/// where the double has two digits.
pub open spec fn luhn_term(c: char, place: nat) -> nat {
    let d = digit_value(c);
    if place % 2 == 0 {
        d
    } else if 2 * d > 9 {
        (2 * d - 9) as nat
    } else {
        2 * d
    }
}

/// The Luhn sum of the rightmost `count` digits.
pub open spec fn luhn_sum(digits: Seq<char>, count: nat) -> nat
    decreases count,
{
    if count == 0 || count > digits.len() {
        0
    } else {
        luhn_sum(digits, (count - 1) as nat) + luhn_term(
            digits[digits.len() - count],
            (count - 1) as nat,
        )
    }
}

/// Whether the digits of a text make a card number: 13 to 19 digits whose
/// Luhn sum is a multiple of ten.
pub open spec fn is_credit_card(text: Seq<char>) -> bool {
    let digits = digits_of(text);
    13 <= digits.len() <= 19 && luhn_sum(digits, digits.len()) % 10 == 0
}

/// The number that a run of digits spells in base ten.
pub open spec fn decimal_value(digits: Seq<char>) -> nat
    decreases digits.len(),
{
    if digits.len() == 0 {
        0
    } else {
        decimal_value(digits.drop_last()) * 10 + digit_value(digits.last())
    }
}

/// A text without its leading plus sign, where it has one.
pub open spec fn unsigned_part(text: Seq<char>) -> Seq<char> {
    if text.len() > 0 && text[0] == '+' {
        text.drop_first()
    } else {
        text
    }
}

/// The length that a text spells: one or more ASCII digits, with at most a
/// plus sign before them, whose number fits the machine's word.
pub open spec fn parsed_length(text: Seq<char>) -> Option<usize> {
    let digits = unsigned_part(text);
    if digits.len() > 0 && all_digits(digits) && decimal_value(digits) <= usize::MAX {
        Some(decimal_value(digits) as usize)
    } else {
        None
    }
}

/// Whether `pattern` stands somewhere in `text`, character by character.
pub open spec fn occurs_in(pattern: Seq<char>, text: Seq<char>) -> bool {
    exists|at: int| occurs_at(pattern, text, at)
}

/// Whether `pattern` stands in `text` at the place `at`.
pub open spec fn occurs_at(pattern: Seq<char>, text: Seq<char>, at: int) -> bool {
    0 <= at && at + pattern.len() <= text.len() && text.subrange(at, at + pattern.len())
        == pattern
}

/// Whether a value passes a check of the given kind and parameter. The two
/// length checks count bytes, and fail without a parameter that spells a
/// length; the pattern check fails without a parameter.
pub open spec fn rule_holds(value: Seq<char>, kind: ValidationType, param: Option<Seq<char>>) -> bool {
    match kind {
        ValidationType::Required => !is_blank(value),
        ValidationType::Email => is_email(value),
        ValidationType::Phone => is_phone(value),
        ValidationType::ZipCode => is_zipcode(value),
        ValidationType::CreditCard => is_credit_card(value),
        ValidationType::MinLength => match param {
            Some(p) => match parsed_length(p) {
                Some(min) => byte_len(value) >= min,
                None => false,
            },
            None => false,
        },
        ValidationType::MaxLength => match param {
            Some(p) => match parsed_length(p) {
                Some(max) => byte_len(value) <= max,
                None => false,
            },
            None => false,
        },
        ValidationType::Pattern => match param {
            Some(p) => occurs_in(p, value),
            None => false,
        },
    }
}

/// Tells an ASCII digit.
fn digit(c: char) -> (yes: bool)
    ensures
        yes == is_digit(c),
{
    '0' <= c && c <= '9'
}

/// The ASCII digits of a text, in their order.
fn collect_digits(text: &str) -> (digits: Vec<char>)
    ensures
        digits@ == digits_of(text@),
        all_digits(digits@),
{
    let mut digits: Vec<char> = Vec::new();
    for c in it: text.chars()
        invariant
            it.seq() == text@,
            digits@ == digits_of(text@.take(it.index() as int)),
            all_digits(digits@),
    {
        proof {
            let i = it.index() as int;
            reveal(Seq::filter);
            assert(text@.take(i + 1).drop_last() =~= text@.take(i));
        }
        if digit(c) {
            digits.push(c);
        }
    }
    proof {
        assert(text@.take(text@.len() as int) =~= text@);
    }
    digits
}

/// Whether a character stands in a text.
fn has_char(text: &str, wanted: char) -> (found: bool)
    ensures
        found == text@.contains(wanted),
{
    let mut found = false;
    for c in it: text.chars()
        invariant
            it.seq() == text@,
            found == text@.take(it.index() as int).contains(wanted),
    {
        proof {
            let i = it.index() as int;
            let before = text@.take(i);
            let now = text@.take(i + 1);
            assert(now =~= before.push(text@[i]));
            if before.contains(wanted) {
                let k = choose|k: int| 0 <= k < before.len() && before[k] == wanted;
                assert(now[k] == wanted);
            }
            if c == wanted {
                assert(now[i] == wanted);
            }
            if now.contains(wanted) && c != wanted {
                let k = choose|k: int| 0 <= k < now.len() && now[k] == wanted;
                assert(before[k] == wanted);
            }
        }
        if c == wanted {
            found = true;
        }
    }
    proof {
        assert(text@.take(text@.len() as int) =~= text@);
    }
    found
}

/// The length of a text in bytes.
fn bytes_in(text: &str) -> (count: usize)
    ensures
        count == byte_len(text@),
{
    text.as_bytes().len()
}

/// Whether a text holds nothing but white space.
fn blank(text: &str) -> (yes: bool)
    ensures
        yes == is_blank(text@),
{
    let mut yes = true;
    for c in it: text.chars()
        invariant
            it.seq() == text@,
            yes == is_blank(text@.take(it.index() as int)),
    {
        proof {
            let i = it.index() as int;
            let before = text@.take(i);
            let now = text@.take(i + 1);
            assert(now =~= before.push(text@[i]));
            if is_blank(now) {
                assert forall|k: int| 0 <= k < before.len() implies is_white_space(
                    #[trigger] before[k],
                ) by {
                    assert(before[k] == now[k]);
                }
                assert(now[i] == c);
            }
            if is_blank(before) && is_white_space(c) {
                assert forall|k: int| 0 <= k < now.len() implies is_white_space(
                    #[trigger] now[k],
                ) by {
                    if k < i {
                        assert(now[k] == before[k]);
                    }
                }
            }
        }
        if !white_space(c) {
            yes = false;
        }
    }
    proof {
        assert(text@.take(text@.len() as int) =~= text@);
    }
    yes
}

/// The number that a digit stands for.
fn value_of(c: char) -> (d: u32)
    requires
        is_digit(c),
    ensures
        d == digit_value(c),
        d <= 9,
{
    c as u32 - '0' as u32
}

/// Whether the Luhn sum of a run of digits is a multiple of ten.
fn luhn_checks(digits: &Vec<char>) -> (ok: bool)
    requires
        all_digits(digits@),
        digits@.len() <= 19,
    ensures
        ok == (luhn_sum(digits@, digits@.len()) % 10 == 0),
{
    let n = digits.len();
    let mut sum: u32 = 0;
    let mut place: usize = 0;
    while place < n
        invariant
            n == digits@.len(),
            n <= 19,
            place <= n,
            all_digits(digits@),
            sum == luhn_sum(digits@, place as nat),
            sum <= 9 * place,
        decreases n - place,
    {
        let mut d = value_of(digits[n - 1 - place]);
        if place % 2 == 1 {
            d = d * 2;
            if d > 9 {
                d = d - 9;
            }
        }
        assert(d == luhn_term(digits@[n - (place + 1)], place as nat));
        sum = sum + d;
        place = place + 1;
    }
    sum % 10 == 0
}

/// A longer run of digits spells no smaller number than its beginning.
proof fn lemma_decimal_value_grows(digits: Seq<char>, count: int)
    requires
        0 <= count <= digits.len(),
    ensures
        decimal_value(digits.take(count)) <= decimal_value(digits),
    decreases digits.len() - count,
{
    if count == digits.len() {
        assert(digits.take(count) =~= digits);
    } else {
        lemma_decimal_value_grows(digits, count + 1);
        assert(digits.take(count + 1).drop_last() =~= digits.take(count));
    }
}

/// Reads a length: one or more ASCII digits, with at most a plus sign before
/// them. A number too large for the machine's word is no length.
pub fn parse_length(text: &str) -> (length: Option<usize>)
    ensures
        length == parsed_length(text@),
{
    let chars = chars_of(text);
    let start: usize = if chars.len() > 0 && chars[0] == '+' {
        1
    } else {
        0
    };
    let ghost digits = unsigned_part(text@);
    proof {
        assert(digits =~= chars@.skip(start as int));
    }
    if start == chars.len() {
        return None;
    }
    let mut value: usize = 0;
    let mut i: usize = start;
    while i < chars.len()
        invariant
            start <= i <= chars.len(),
            digits == unsigned_part(text@),
            digits == chars@.skip(start as int),
            all_digits(digits.take(i - start)),
            value == decimal_value(digits.take(i - start)),
        decreases chars.len() - i,
    {
        let c = chars[i];
        let ghost before = digits.take(i - start);
        let ghost now = digits.take(i - start + 1);
        proof {
            assert(now.drop_last() =~= before);
            assert(now.last() == c);
            assert(digits[i - start] == c);
        }
        if !digit(c) {
            proof {
                assert(!is_digit(digits[i - start]));
            }
            return None;
        }
        proof {
            assert(decimal_value(now) == decimal_value(before) * 10 + digit_value(c));
            assert forall|k: int| 0 <= k < now.len() implies is_digit(#[trigger] now[k]) by {
                if k < before.len() {
                    assert(now[k] == before[k]);
                }
            }
            lemma_decimal_value_grows(digits, i - start + 1);
        }
        let d = value_of(c) as usize;
        value = match value.checked_mul(10) {
            Some(tens) => match tens.checked_add(d) {
                Some(next) => next,
                None => { return None; },
            },
            None => { return None; },
        };
        i = i + 1;
    }
    proof {
        assert(digits.take(digits.len() as int) =~= digits);
    }
    Some(value)
}

/// Whether `pattern` stands in `text` at the place `at`.
fn matches_at(text: &Vec<char>, pattern: &Vec<char>, at: usize) -> (yes: bool)
    requires
        at + pattern@.len() <= text@.len(),
    ensures
        yes == occurs_at(pattern@, text@, at as int),
{
    let ghost n = text.len();
    let mut k: usize = 0;
    while k < pattern.len()
        invariant
            k <= pattern@.len(),
            at + pattern@.len() <= text@.len() <= usize::MAX,
            text@.subrange(at as int, at + k) == pattern@.take(k as int),
        decreases pattern.len() - k,
    {
        if text[at + k] != pattern[k] {
            proof {
                let part = text@.subrange(at as int, at + pattern@.len());
                assert(part[k as int] != pattern@[k as int]);
            }
            return false;
        }
        proof {
            assert(text@.subrange(at as int, at + k + 1) =~= text@.subrange(at as int, at + k).push(
                text@[at + k],
            ));
            assert(pattern@.take(k + 1) =~= pattern@.take(k as int).push(pattern@[k as int]));
        }
        k = k + 1;
    }
    proof {
        assert(pattern@.take(pattern@.len() as int) =~= pattern@);
    }
    true
}

/// Whether `pattern` stands somewhere in `text`.
pub fn contains_text(text: &str, pattern: &str) -> (found: bool)
    ensures
        found == occurs_in(pattern@, text@),
{
    let hay = chars_of(text);
    let needle = chars_of(pattern);
    if needle.len() > hay.len() {
        proof {
            assert forall|k: int| !occurs_at(pattern@, text@, k) by {}
        }
        return false;
    }
    let last = hay.len() - needle.len();
    let mut at: usize = 0;
    loop
        invariant
            hay@ == text@,
            needle@ == pattern@,
            last == hay@.len() - needle@.len(),
            at <= last,
            forall|k: int| 0 <= k < at ==> !occurs_at(pattern@, text@, k),
        decreases last - at,
    {
        if matches_at(&hay, &needle, at) {
            proof {
                assert(occurs_at(pattern@, text@, at as int));
            }
            return true;
        }
        if at == last {
            proof {
                assert forall|k: int| !occurs_at(pattern@, text@, k) by {}
            }
            return false;
        }
        at = at + 1;
    }
}

/// Checks fields against rules. It holds no state.
pub struct Validator;

impl Validator {
    /// A validator.
    pub fn new() -> (validator: Validator) {
        Validator
    }

    /// Whether a value passes a rule.
    pub fn validate_field(&self, value: &str, rule: &ValidationRule) -> (valid: bool)
        ensures
            valid == rule_holds(value@, rule.rule_type, text_view(rule.param)),
    {
        match rule.rule_type {
            ValidationType::Required => !blank(value),
            ValidationType::Email => self.validate_email(value),
            ValidationType::Phone => self.validate_phone(value),
            ValidationType::ZipCode => self.validate_zipcode(value),
            ValidationType::CreditCard => self.validate_credit_card(value),
            ValidationType::MinLength => match &rule.param {
                Some(param) => match parse_length(param.as_str()) {
                    Some(min) => bytes_in(value) >= min,
                    None => false,
                },
                None => false,
            },
            ValidationType::MaxLength => match &rule.param {
                Some(param) => match parse_length(param.as_str()) {
                    Some(max) => bytes_in(value) <= max,
                    None => false,
                },
                None => false,
            },
            ValidationType::Pattern => match &rule.param {
                Some(pattern) => contains_text(value, pattern.as_str()),
                None => false,
            },
        }
    }

    /// Whether a text looks like an e-mail address.
    pub fn validate_email(&self, email: &str) -> (valid: bool)
        ensures
            valid == is_email(email@),
    {
        has_char(email, '@') && has_char(email, '.') && bytes_in(email) >= 5
    }

    /// Whether a text holds a phone number.
    pub fn validate_phone(&self, phone: &str) -> (valid: bool)
        ensures
            valid == is_phone(phone@),
    {
        let digits = collect_digits(phone);
        digits.len() >= 10
    }

    /// Whether a text holds a US ZIP code.
    pub fn validate_zipcode(&self, zip: &str) -> (valid: bool)
        ensures
            valid == is_zipcode(zip@),
    {
        let digits = collect_digits(zip);
        digits.len() == 5 || digits.len() == 9
    }

    /// Whether the digits of a text make a card number.
    pub fn validate_credit_card(&self, card: &str) -> (valid: bool)
        ensures
            valid == is_credit_card(card@),
    {
        let digits = collect_digits(card);
        if digits.len() < 13 || digits.len() > 19 {
            return false;
        }
        luhn_checks(&digits)
    }
}

} // verus!

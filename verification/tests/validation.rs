use wasm_api::validation::{
    contains_text, parse_length, ValidationError, ValidationRule, ValidationType, Validator,
};

fn rule(rule_type: ValidationType, param: Option<&str>) -> ValidationRule {
    ValidationRule {
        rule_type,
        param: param.map(|p| p.to_string()),
        message: "invalid".to_string(),
    }
}

#[test]
fn test_email_validation() {
    let validator = Validator::new();
    assert!(validator.validate_email("test@example.com"));
    assert!(!validator.validate_email("invalid-email"));
}

#[test]
fn test_credit_card_luhn() {
    let validator = Validator::new();
    // Valid test card number
    assert!(validator.validate_credit_card("4532015112830366"));
    // Invalid
    assert!(!validator.validate_credit_card("4532015112830367"));
}

#[test]
fn email_needs_at_dot_and_five_bytes() {
    let validator = Validator::new();
    assert!(validator.validate_email("a@b.c"));
    assert!(!validator.validate_email("@b.c"));
    assert!(!validator.validate_email("a@bcd"));
    assert!(!validator.validate_email("a.bcd"));
    assert!(!validator.validate_email(""));
    // three characters, five bytes
    assert!(validator.validate_email("@.\u{20ac}"));
    assert!(validator.validate_email(".....@"));
}

#[test]
fn phone_counts_digits() {
    let validator = Validator::new();
    assert!(validator.validate_phone("(555) 123-4567"));
    assert!(validator.validate_phone("+1 555 123 4567 ext. 9"));
    assert!(!validator.validate_phone("555-1234"));
    assert!(!validator.validate_phone("123456789"));
    assert!(validator.validate_phone("1234567890"));
    // digits of other scripts do not count
    assert!(!validator.validate_phone("\u{661}\u{662}\u{663}\u{664}\u{665}\u{666}\u{667}\u{668}\u{669}\u{660}"));
}

#[test]
fn zipcode_is_five_or_nine_digits() {
    let validator = Validator::new();
    assert!(validator.validate_zipcode("92101"));
    assert!(validator.validate_zipcode("92101-1234"));
    assert!(validator.validate_zipcode("9 2 1 0 1"));
    assert!(!validator.validate_zipcode("9210"));
    assert!(!validator.validate_zipcode("921011"));
    assert!(!validator.validate_zipcode("92101-123"));
    assert!(!validator.validate_zipcode("92101-12345"));
    assert!(!validator.validate_zipcode(""));
}

#[test]
fn credit_card_length_and_checksum() {
    let validator = Validator::new();
    assert!(validator.validate_credit_card("4532 0151 1283 0366"));
    assert!(validator.validate_credit_card("4532-0151-1283-0366"));
    assert!(validator.validate_credit_card("4111111111111111"));
    assert!(validator.validate_credit_card("378282246310005"));
    assert!(validator.validate_credit_card("4222222222222"));
    // twelve zeros pass the checksum and are too short; thirteen are long enough
    assert!(!validator.validate_credit_card("000000000000"));
    assert!(validator.validate_credit_card("0000000000000"));
    assert!(validator.validate_credit_card("0000000000000000000"));
    assert!(!validator.validate_credit_card("00000000000000000000"));
    assert!(!validator.validate_credit_card("4111111111111112"));
    assert!(!validator.validate_credit_card(""));
    assert!(!validator.validate_credit_card("not a card"));
}

#[test]
fn luhn_doubles_every_second_digit_from_the_right() {
    let validator = Validator::new();
    // 0000000000018: 8 + 2*1 = 10
    assert!(validator.validate_credit_card("0000000000018"));
    // 0000000000059: 9 + (2*5 - 9) = 10
    assert!(validator.validate_credit_card("0000000000059"));
    // 0000000000091: 1 + (2*9 - 9) = 10
    assert!(validator.validate_credit_card("0000000000091"));
    assert!(!validator.validate_credit_card("0000000000081"));
    assert!(!validator.validate_credit_card("0000000000010"));
}

#[test]
fn required_refuses_blank_values() {
    let validator = Validator::new();
    let required = rule(ValidationType::Required, None);
    assert!(validator.validate_field("x", &required));
    assert!(validator.validate_field("  x  ", &required));
    assert!(!validator.validate_field("", &required));
    assert!(!validator.validate_field(" \t\r\n", &required));
    assert!(!validator.validate_field("\u{a0}\u{2003}\u{3000}", &required));
    assert!(validator.validate_field("\u{200b}", &required));
}

#[test]
fn required_agrees_with_trim_on_every_character() {
    let validator = Validator::new();
    let required = rule(ValidationType::Required, None);
    for code in 0u32..=0x10ffff {
        if let Some(c) = char::from_u32(code) {
            let value = c.to_string();
            assert_eq!(
                validator.validate_field(&value, &required),
                !value.trim().is_empty(),
                "U+{:04X}",
                code
            );
        }
    }
}

#[test]
fn validate_field_dispatches_on_the_kind() {
    let validator = Validator::new();
    assert!(validator.validate_field("test@example.com", &rule(ValidationType::Email, None)));
    assert!(!validator.validate_field("invalid-email", &rule(ValidationType::Email, None)));
    assert!(validator.validate_field("555-123-4567", &rule(ValidationType::Phone, None)));
    assert!(!validator.validate_field("123-4567", &rule(ValidationType::Phone, None)));
    assert!(validator.validate_field("92101", &rule(ValidationType::ZipCode, None)));
    assert!(!validator.validate_field("9210", &rule(ValidationType::ZipCode, None)));
    assert!(validator.validate_field("4532015112830366", &rule(ValidationType::CreditCard, None)));
    assert!(!validator.validate_field("4532015112830367", &rule(ValidationType::CreditCard, None)));
}

#[test]
fn min_and_max_length_count_bytes() {
    let validator = Validator::new();
    let min3 = rule(ValidationType::MinLength, Some("3"));
    let max3 = rule(ValidationType::MaxLength, Some("3"));
    assert!(validator.validate_field("abc", &min3));
    assert!(validator.validate_field("abcd", &min3));
    assert!(!validator.validate_field("ab", &min3));
    assert!(validator.validate_field("abc", &max3));
    assert!(validator.validate_field("", &max3));
    assert!(!validator.validate_field("abcd", &max3));
    // one character of three bytes
    assert!(validator.validate_field("\u{20ac}", &min3));
    assert!(validator.validate_field("\u{20ac}", &max3));
    assert!(!validator.validate_field("\u{20ac}a", &max3));
    assert!(validator.validate_field("", &rule(ValidationType::MinLength, Some("0"))));
    assert!(validator.validate_field("ab", &rule(ValidationType::MinLength, Some("+2"))));
}

#[test]
fn length_rules_fail_without_a_length() {
    let validator = Validator::new();
    for kind in [ValidationType::MinLength, ValidationType::MaxLength] {
        assert!(!validator.validate_field("abc", &rule(kind.clone(), None)));
        for param in ["", "+", "-1", "three", " 3", "3 ", "3.0", "0x3", "99999999999999999999999"] {
            assert!(!validator.validate_field("abc", &rule(kind.clone(), Some(param))), "{:?}", param);
        }
    }
}

#[test]
fn pattern_looks_for_the_parameter_in_the_value() {
    let validator = Validator::new();
    assert!(validator.validate_field("hello world", &rule(ValidationType::Pattern, Some("lo w"))));
    assert!(validator.validate_field("hello", &rule(ValidationType::Pattern, Some("hello"))));
    assert!(validator.validate_field("hello", &rule(ValidationType::Pattern, Some(""))));
    assert!(validator.validate_field("", &rule(ValidationType::Pattern, Some(""))));
    assert!(!validator.validate_field("hello", &rule(ValidationType::Pattern, Some("hello!"))));
    assert!(!validator.validate_field("hello", &rule(ValidationType::Pattern, Some("world"))));
    assert!(!validator.validate_field("hello", &rule(ValidationType::Pattern, None)));
}

#[test]
fn parse_length_agrees_with_std() {
    let samples = [
        "", "0", "7", "007", "+7", "++7", "+", "-7", "-0", "12a", "a12", " 12", "12 ", "1_000",
        "18446744073709551615", "18446744073709551616", "4294967295", "4294967296",
        "99999999999999999999999999", "+18446744073709551615", "\u{661}\u{662}", "1.5", "1e3",
    ];
    for sample in samples {
        assert_eq!(parse_length(sample), sample.parse::<usize>().ok(), "{:?}", sample);
    }
    assert_eq!(parse_length("1234"), Some(1234));
    assert_eq!(parse_length(&usize::MAX.to_string()), Some(usize::MAX));
}

#[test]
fn contains_text_agrees_with_std() {
    let texts = ["", "a", "ab", "aab", "abab", "hello world", "\u{20ac}uro", "aaa"];
    for text in texts {
        for pattern in texts {
            assert_eq!(contains_text(text, pattern), text.contains(pattern), "{:?} in {:?}", pattern, text);
        }
    }
    assert!(contains_text("needle in a haystack", "hay"));
    assert!(!contains_text("needle in a haystack", "hey"));
}

#[test]
fn validation_types_carry_their_data() {
    let error = ValidationError { field: "email".to_string(), message: "bad".to_string() };
    let copy = error.clone();
    assert_eq!(copy.field, "email");
    assert_eq!(copy.message, "bad");
    let email = rule(ValidationType::Email, Some("x"));
    let copy = email.clone();
    assert_eq!(copy.rule_type, ValidationType::Email);
    assert_eq!(copy.param, Some("x".to_string()));
    assert_eq!(copy.message, "invalid");
}

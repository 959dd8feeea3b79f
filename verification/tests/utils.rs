use wasm_api::text::{trim, white_space};
use wasm_api::utils::{clean_currency, currency_sign, sign_of_code, to_hex, CurrencySign};

#[test]
fn currency_signs_by_code() {
    assert_eq!(currency_sign("USD"), CurrencySign::Dollar);
    assert_eq!(currency_sign("EUR"), CurrencySign::Euro);
    assert_eq!(currency_sign("GBP"), CurrencySign::Pound);
    assert_eq!(currency_sign("CAD"), CurrencySign::Code);
    assert_eq!(currency_sign(""), CurrencySign::Code);
    assert_eq!(currency_sign("USDX"), CurrencySign::Code);
}

#[test]
fn currency_sign_ignores_case() {
    assert_eq!(currency_sign("usd"), CurrencySign::Dollar);
    assert_eq!(currency_sign("Eur"), CurrencySign::Euro);
    assert_eq!(currency_sign("gBp"), CurrencySign::Pound);
    assert_eq!(currency_sign("cad"), CurrencySign::Code);
    // the long s is a lower-case S
    assert_eq!(currency_sign("u\u{17f}d"), CurrencySign::Dollar);
}

#[test]
fn sign_of_code_reads_upper_case_only() {
    assert_eq!(sign_of_code("USD"), CurrencySign::Dollar);
    assert_eq!(sign_of_code("EUR"), CurrencySign::Euro);
    assert_eq!(sign_of_code("GBP"), CurrencySign::Pound);
    assert_eq!(sign_of_code("usd"), CurrencySign::Code);
    assert_eq!(sign_of_code("JPY"), CurrencySign::Code);
}

#[test]
fn clean_currency_leaves_the_number() {
    assert_eq!(clean_currency("$99.99"), "99.99");
    assert_eq!(clean_currency("\u{20ac}1,234.56"), "1234.56");
    assert_eq!(clean_currency("\u{a3} 5"), "5");
    assert_eq!(clean_currency("  1,000,000 $ "), "1000000");
    assert_eq!(clean_currency("12 34"), "12 34");
    assert_eq!(clean_currency("$,"), "");
    assert_eq!(clean_currency(""), "");
    assert_eq!(clean_currency("-$3.50"), "-3.50");
}

#[test]
fn clean_currency_agrees_with_replace_and_trim() {
    for value in ["$99.99", " \u{20ac} 1,2,3 ", "\t$\n", "abc", "\u{a3}\u{a0}7\u{2003}", ",,$$", " a , b "] {
        let expected = value
            .replace('$', "")
            .replace('\u{20ac}', "")
            .replace('\u{a3}', "")
            .replace(',', "");
        assert_eq!(clean_currency(value), expected.trim(), "{:?}", value);
    }
}

#[test]
fn trim_agrees_with_std() {
    for text in ["", " ", "a", " a", "a ", " a b ", "\t\r\n x \u{3000}", "\u{a0}\u{a0}", "\u{200b} "] {
        assert_eq!(trim(text), text.trim(), "{:?}", text);
    }
}

#[test]
fn white_space_agrees_with_std() {
    for code in 0u32..=0x10ffff {
        if let Some(c) = char::from_u32(code) {
            assert_eq!(white_space(c), c.is_whitespace(), "U+{:04X}", code);
        }
    }
}

#[test]
fn hex_of_numbers() {
    assert_eq!(to_hex(0), "0");
    assert_eq!(to_hex(9), "9");
    assert_eq!(to_hex(10), "a");
    assert_eq!(to_hex(15), "f");
    assert_eq!(to_hex(16), "10");
    assert_eq!(to_hex(255), "ff");
    assert_eq!(to_hex(0xdead_beef), "deadbeef");
    assert_eq!(to_hex(1_700_000_000_000), "18bcfe56800");
    assert_eq!(to_hex(u128::MAX), "ffffffffffffffffffffffffffffffff");
}

#[test]
fn hex_agrees_with_std() {
    let mut n: u128 = 1;
    for _ in 0..128 {
        assert_eq!(to_hex(n), format!("{:x}", n));
        assert_eq!(to_hex(n - 1), format!("{:x}", n - 1));
        n = n.wrapping_mul(2).max(1);
    }
    for n in [12345u128, 0x1000, 0xfff, 0xabcdef0123456789] {
        assert_eq!(to_hex(n), format!("{:x}", n));
    }
}

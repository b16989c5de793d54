//! Edge cases of the integer grammar, the text utilities, and the exact
//! diagnostic lines.

use rust_input::messages;
use rust_input::numeric::TextParsable;
use rust_input::text::str_eq_ci;

#[test]
fn parse_plain_and_signed() {
    assert_eq!(<i32 as TextParsable>::parse_text("7"), Some(7));
    assert_eq!(<i32 as TextParsable>::parse_text("+7"), Some(7));
    assert_eq!(<i32 as TextParsable>::parse_text("-19"), Some(-19));
    assert_eq!(<i32 as TextParsable>::parse_text("-0"), Some(0));
    assert_eq!(<i32 as TextParsable>::parse_text("007"), Some(7));
}

#[test]
fn parse_rejects_broken_tokens() {
    assert_eq!(<i32 as TextParsable>::parse_text(""), None);
    assert_eq!(<i32 as TextParsable>::parse_text("+"), None);
    assert_eq!(<i32 as TextParsable>::parse_text("-"), None);
    assert_eq!(<i32 as TextParsable>::parse_text("12.5.3"), None);
    assert_eq!(<i32 as TextParsable>::parse_text("1 2"), None);
    assert_eq!(<i32 as TextParsable>::parse_text(" 7"), None);
    assert_eq!(<i32 as TextParsable>::parse_text("abc"), None);
    assert_eq!(<i32 as TextParsable>::parse_text("--5"), None);
    assert_eq!(<i32 as TextParsable>::parse_text("+-5"), None);
}

#[test]
fn parse_respects_signed_bounds() {
    assert_eq!(<i8 as TextParsable>::parse_text("127"), Some(127));
    assert_eq!(<i8 as TextParsable>::parse_text("128"), None);
    assert_eq!(<i8 as TextParsable>::parse_text("-128"), Some(-128));
    assert_eq!(<i8 as TextParsable>::parse_text("-129"), None);
    assert_eq!(<i64 as TextParsable>::parse_text("-9223372036854775808"), Some(i64::MIN));
    assert_eq!(<i64 as TextParsable>::parse_text("-9223372036854775809"), None);
}

#[test]
fn parse_respects_unsigned_bounds() {
    assert_eq!(<u8 as TextParsable>::parse_text("255"), Some(255));
    assert_eq!(<u8 as TextParsable>::parse_text("256"), None);
    assert_eq!(<u64 as TextParsable>::parse_text("18446744073709551615"), Some(u64::MAX));
    assert_eq!(<u64 as TextParsable>::parse_text("18446744073709551616"), None);
}

#[test]
fn parse_respects_the_widest_bounds() {
    assert_eq!(
        <i128 as TextParsable>::parse_text("-170141183460469231731687303715884105728"),
        Some(i128::MIN),
    );
    assert_eq!(
        <i128 as TextParsable>::parse_text("-170141183460469231731687303715884105729"),
        None,
    );
    assert_eq!(
        <i128 as TextParsable>::parse_text("170141183460469231731687303715884105727"),
        Some(i128::MAX),
    );
    assert_eq!(
        <u128 as TextParsable>::parse_text("340282366920938463463374607431768211455"),
        Some(u128::MAX),
    );
    assert_eq!(
        <u128 as TextParsable>::parse_text("340282366920938463463374607431768211456"),
        None,
    );
    assert_eq!(<u128 as TextParsable>::parse_text("+0"), Some(0));
    assert_eq!(<u128 as TextParsable>::parse_text("-0"), None);
}

#[test]
fn parse_unsigned_refuses_a_minus_sign() {
    assert_eq!(<u32 as TextParsable>::parse_text("-0"), None);
    assert_eq!(<u32 as TextParsable>::parse_text("-5"), None);
    assert_eq!(<u32 as TextParsable>::parse_text("+5"), Some(5));
}

#[test]
fn case_insensitive_comparison_is_ascii() {
    assert!(str_eq_ci("AbC", "aBc"));
    assert!(str_eq_ci("", ""));
    assert!(!str_eq_ci("abc", "abd"));
    assert!(!str_eq_ci("abc", "ab"));
    assert!(!str_eq_ci("a_c", "a-c"));
}

#[test]
fn diagnostics_are_the_fixed_lines() {
    assert_eq!(messages::int_invalid_message(), "Invalid input, enter a valid integer.");
    assert_eq!(messages::float_invalid_message(), "Invalid input, enter a valid number.");
    assert_eq!(messages::char_invalid_message(), "Please enter at least one character.");
    assert_eq!(messages::bool_invalid_message(), "Please enter yes/no or true/false");
    assert_eq!(
        messages::optional_invalid_message(),
        "Invalid input, try again or press Enter to skip.",
    );
    assert_eq!(
        messages::default_invalid_message(),
        "Invalid input, try again or press Enter for default.",
    );
}

#[test]
fn choices_diagnostic_lists_the_allowed_words() {
    let allowed: Vec<String> = vec!["light".to_string(), "dark".to_string()];
    assert_eq!(
        messages::choices_invalid_message(&allowed),
        "Invalid choice. Allowed: light, dark",
    );
    let one: Vec<String> = vec!["only".to_string()];
    assert_eq!(messages::choices_invalid_message(&one), "Invalid choice. Allowed: only");
    let none: Vec<String> = Vec::new();
    assert_eq!(messages::choices_invalid_message(&none), "Invalid choice. Allowed: ");
}

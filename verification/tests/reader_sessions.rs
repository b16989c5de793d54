//! End-to-end scenarios for the typed read operations: each test feeds a
//! reader a fixed transcript of raw lines and checks the returned value.

use rust_input::Input;
use rust_input::input;

fn lines(raw: &[&str]) -> Vec<String> {
    raw.iter().map(|s| s.to_string()).collect()
}

#[test]
fn prompt_is_stored_verbatim() {
    let reader = Input::new("Enter age: ");
    assert_eq!(reader.prompt, "Enter age: ");
    let reader = input("Proceed? (y/n): ");
    assert_eq!(reader.prompt, "Proceed? (y/n): ");
}

#[test]
fn int_valid_first_line() {
    let reader = Input::new("Enter age: ");
    assert_eq!(reader.integer::<i32>(&lines(&["42"])), Some(42));
}

#[test]
fn int_accepts_line_terminator_and_blanks() {
    let reader = Input::new("Enter age: ");
    assert_eq!(reader.integer::<i32>(&lines(&["  42  \n"])), Some(42));
}

#[test]
fn int_retries_past_invalid_tokens() {
    let reader = Input::new("Enter age: ");
    assert_eq!(reader.integer::<i32>(&lines(&["abc", "12.5.3", "", "7"])), Some(7));
}

#[test]
fn int_exhausted_transcript_returns_none() {
    let reader = Input::new("Enter age: ");
    assert_eq!(reader.integer::<i32>(&lines(&["abc"])), None);
    assert_eq!(reader.integer::<i32>(&lines(&[])), None);
}

#[test]
fn string_returns_trimmed_line() {
    let reader = Input::new("Enter name: ");
    assert_eq!(reader.string("  hi there \n"), "hi there");
    assert_eq!(reader.string(""), "");
    assert_eq!(reader.string(" \t\r\n"), "");
}

#[test]
fn trimming_covers_unicode_whitespace() {
    let reader = Input::new("Enter name: ");
    assert_eq!(reader.string("\u{a0}hi\u{2003}\n"), "hi");
    assert_eq!(reader.string("\u{3000}\u{2028}"), "");
    assert_eq!(reader.integer::<i32>(&lines(&["\u{a0}7\u{a0}"])), Some(7));
}

#[test]
fn unicode_whitespace_line_counts_as_empty() {
    let reader = Input::new("Lucky number: ");
    assert_eq!(reader.optional::<i32>(&lines(&["\u{a0}"])), Some(None));
    assert_eq!(reader.char(&lines(&["\u{a0}", "Q"])), Some('Q'));
}

#[test]
fn char_takes_first_character() {
    let reader = Input::new("First initial: ");
    assert_eq!(reader.char(&lines(&["Q"])), Some('Q'));
    assert_eq!(reader.char(&lines(&["Quit"])), Some('Q'));
}

#[test]
fn char_reprompts_on_whitespace_only_line() {
    let reader = Input::new("First initial: ");
    assert_eq!(reader.char(&lines(&[" ", "Q"])), Some('Q'));
    assert_eq!(reader.char(&lines(&["", " \t "])), None);
}

#[test]
fn char_handles_multibyte_characters() {
    let reader = Input::new("First initial: ");
    assert_eq!(reader.char(&lines(&["émile"])), Some('é'));
}

#[test]
fn bool_true_for_every_case_variant() {
    let reader = Input::new("Proceed? ");
    for word in ["yes", "YES", "Yes", "yEs", "y", "Y", "true", "TRUE", "TrUe", "1"] {
        assert_eq!(reader.bool(&lines(&[word])), Some(true), "{word}");
    }
}

#[test]
fn bool_false_for_every_case_variant() {
    let reader = Input::new("Proceed? ");
    for word in ["no", "NO", "No", "n", "N", "false", "FALSE", "False", "0"] {
        assert_eq!(reader.bool(&lines(&[word])), Some(false), "{word}");
    }
}

#[test]
fn bool_rejects_anything_else() {
    let reader = Input::new("Proceed? ");
    assert_eq!(reader.bool(&lines(&["maybe", "y"])), Some(true));
    assert_eq!(reader.bool(&lines(&["oui"])), None);
}

#[test]
fn optional_empty_line_skips() {
    let reader = Input::new("Lucky number: ");
    assert_eq!(reader.optional::<i32>(&lines(&[""])), Some(None));
}

#[test]
fn optional_present_value() {
    let reader = Input::new("Lucky number: ");
    assert_eq!(reader.optional::<i32>(&lines(&["7"])), Some(Some(7)));
}

#[test]
fn optional_retries_then_accepts() {
    let reader = Input::new("Lucky number: ");
    assert_eq!(reader.optional::<i32>(&lines(&["x", "7"])), Some(Some(7)));
}

#[test]
fn default_empty_line_falls_back() {
    let reader = Input::new("Retries [default 3]: ");
    assert_eq!(reader.default(3u32, &lines(&[""])), Some(3));
}

#[test]
fn default_parsed_value_wins() {
    let reader = Input::new("Retries [default 3]: ");
    assert_eq!(reader.default(3u32, &lines(&["10"])), Some(10));
}

#[test]
fn default_retries_then_falls_back() {
    let reader = Input::new("Retries [default 3]: ");
    assert_eq!(reader.default(3u32, &lines(&["abc", ""])), Some(3));
}

#[test]
fn choices_normalises_to_canonical_casing() {
    let reader = Input::new("Theme [light/dark]: ");
    let allowed = lines(&["light", "dark"]);
    assert_eq!(reader.choices(&allowed, &lines(&["DARK"])), Some("dark".to_string()));
    assert_eq!(reader.choices(&allowed, &lines(&["LiGhT"])), Some("light".to_string()));
}

#[test]
fn choices_retries_until_a_match() {
    let reader = Input::new("Theme [light/dark]: ");
    let allowed = lines(&["light", "dark"]);
    assert_eq!(reader.choices(&allowed, &lines(&["blue", " dark "])), Some("dark".to_string()));
    assert_eq!(reader.choices(&allowed, &lines(&["blue"])), None);
}

#[test]
fn choices_folds_case_beyond_ascii() {
    let reader = Input::new("Pick: ");
    let allowed = lines(&["É", "Grün"]);
    assert_eq!(reader.choices(&allowed, &lines(&["é"])), Some("É".to_string()));
    assert_eq!(reader.choices(&allowed, &lines(&["GRÜN"])), Some("Grün".to_string()));
}

#[test]
fn choices_first_matching_entry_wins() {
    let reader = Input::new("Pick: ");
    let allowed = lines(&["Ten", "ten"]);
    assert_eq!(reader.choices(&allowed, &lines(&["TEN"])), Some("Ten".to_string()));
}

#[test]
fn identical_transcripts_give_identical_outcomes() {
    let a = Input::new("Enter age: ");
    let b = Input::new("Enter age: ");
    let transcript = lines(&["abc", "19"]);
    assert_eq!(a.integer::<i32>(&transcript), b.integer::<i32>(&transcript));
    assert_eq!(a.bool(&lines(&["nope", "y"])), b.bool(&lines(&["nope", "y"])));
    assert_eq!(
        a.choices(&lines(&["light", "dark"]), &lines(&["DARK"])),
        b.choices(&lines(&["light", "dark"]), &lines(&["DARK"])),
    );
}

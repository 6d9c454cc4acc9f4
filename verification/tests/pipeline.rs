use docr::assemble::split_ascii_words;
use docr::assemble::trim_line_end;
use docr::resolve_language_tag;
use docr::stringify_lines;
use docr::DocrError;

#[test]
fn assemble_single_ltr_line_trims_trailing_whitespace() {
    let text = stringify_lines(vec!["Hello  World ".to_string()], false);
    assert_eq!(text, "Hello  World\n");
}

#[test]
fn assemble_single_rtl_line_reverses_words() {
    let text = stringify_lines(vec!["هو الكون".to_string()], true);
    assert_eq!(text, "الكون هو \n");
}

#[test]
fn assemble_preserves_line_order_ltr() {
    let lines = vec!["first line".to_string(), "second line".to_string()];
    let text = stringify_lines(lines, false);
    assert_eq!(text, "first line\nsecond line\n");
}

#[test]
fn assemble_preserves_line_order_rtl() {
    let lines = vec!["a b".to_string(), "c d".to_string()];
    let text = stringify_lines(lines, true);
    assert_eq!(text, "b a \nd c \n");
}

#[test]
fn assemble_empty_input_yields_empty_text() {
    let text = stringify_lines(Vec::new(), true);
    assert_eq!(text, "");
}

#[test]
fn assemble_blank_lines() {
    assert_eq!(stringify_lines(vec!["   ".to_string()], true), "\n");
    assert_eq!(stringify_lines(vec!["   ".to_string()], false), "\n");
    assert_eq!(stringify_lines(vec!["".to_string()], false), "\n");
}

#[test]
fn assemble_rtl_collapses_runs_of_separators() {
    let text = stringify_lines(vec!["one\t two".to_string()], true);
    assert_eq!(text, "two one \n");
}

#[test]
fn split_words_skips_empty_words() {
    let words = split_ascii_words("  a  bc\td ");
    assert_eq!(words, vec!["a".to_string(), "bc".to_string(), "d".to_string()]);
}

#[test]
fn trim_line_end_trims_unicode_whitespace() {
    assert_eq!(trim_line_end("x\t \u{a0}"), "x");
    assert_eq!(trim_line_end("  x"), "  x");
    assert_eq!(trim_line_end(""), "");
}

#[test]
fn resolve_exact_tag_is_returned() {
    let available = vec!["en".to_string(), "ar-eg".to_string()];
    let resolved = resolve_language_tag("en", &available).unwrap();
    assert_eq!(resolved, "en");
}

#[test]
fn resolve_lowercases_the_request() {
    let available = vec!["en".to_string(), "ar-eg".to_string()];
    let resolved = resolve_language_tag("EN", &available).unwrap();
    assert_eq!(resolved, "en");
}

#[test]
fn resolve_base_tag_picks_first_variant_in_order() {
    let available = vec![
        "en".to_string(),
        "ar-eg".to_string(),
        "ar-sa".to_string(),
    ];
    let resolved = resolve_language_tag("ar", &available).unwrap();
    assert_eq!(resolved, "ar-eg");
}

#[test]
fn resolve_variant_requires_hyphen_boundary() {
    // "arb" is not a region variant of "ar".
    let available = vec!["arb".to_string(), "ar-sa".to_string()];
    let resolved = resolve_language_tag("ar", &available).unwrap();
    assert_eq!(resolved, "ar-sa");
}

#[test]
fn resolve_unknown_tag_fails_with_operation_error() {
    let available = vec!["en".to_string(), "ar-eg".to_string()];
    let err = resolve_language_tag("aws", &available).unwrap_err();
    match err {
        DocrError::OperationError(message) => {
            assert_eq!(message, "Language 'aws' is not supported by the OCR engine");
        }
        DocrError::RuntimeError(..) => panic!("expected a validation error"),
    }
}

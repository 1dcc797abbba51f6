use cockpit_task::task_response::prefixed;
use cockpit_task::text::{chars_of, contains_str, parse_unsigned};

#[test]
fn contains_finds_substrings() {
    assert!(contains_str("call_final_output_3", "final_output"));
    assert!(contains_str("final_output", "final_output"));
    assert!(!contains_str("final_outpu", "final_output"));
    assert!(!contains_str("Final_Output", "final_output"));
    assert!(contains_str("anything", ""));
    assert!(contains_str("", ""));
    assert!(!contains_str("", "a"));
    assert!(contains_str("héllo wörld", "ö"));
}

#[test]
fn chars_are_read_in_order() {
    assert_eq!(chars_of("aé€"), vec!['a', 'é', '€']);
    assert_eq!(chars_of(""), Vec::<char>::new());
}

#[test]
fn parses_unsigned_numbers_as_std_does() {
    for text in ["0", "7", "+7", "0042", "300", "4294967295", "18446744073709551615", "", "+", "-1", " 1", "1 ", "1_000", "12a", "++1", "18446744073709551616"] {
        assert_eq!(parse_unsigned(text, u64::MAX), text.parse::<u64>().ok(), "{text}");
        assert_eq!(parse_unsigned(text, u32::MAX as u64), text.parse::<u32>().ok().map(u64::from), "{text}");
    }
    assert_eq!(parse_unsigned("256", 255), None);
    assert_eq!(parse_unsigned("255", 255), Some(255));
}

#[test]
fn prefixed_joins_two_texts() {
    assert_eq!(prefixed("error_", "x"), "error_x");
    assert_eq!(prefixed("", ""), "");
}

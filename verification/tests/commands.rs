//! The command protocol.

use ocha::command::{extract_command, is_command_line};

#[test]
fn test_is_command_line() {
    assert!(is_command_line("!!!OCHA_RUN_CMD{}"));
    assert!(is_command_line("  !!!OCHA_RUN_CMD{}"));
    assert!(is_command_line("\t!!!OCHA_RUN_CMD{}"));
    assert!(!is_command_line("Not a command"));
    assert!(!is_command_line("Check this: !!!OCHA_RUN_CMD{}"));
}

#[test]
fn test_extract_command() {
    let response = "Some text\n!!!OCHA_RUN_CMD{\"binary\": \"ls\"}\nMore text";
    assert_eq!(extract_command(response), Some("{\"binary\": \"ls\"}"));

    let response = "!!!OCHA_RUN_CMD{\"binary\": \"whoami\"}";
    assert_eq!(extract_command(response), Some("{\"binary\": \"whoami\"}"));

    let response = "  !!!OCHA_RUN_CMD{\"binary\": \"pwd\"}";
    assert_eq!(extract_command(response), Some("{\"binary\": \"pwd\"}"));

    let response = "No command here";
    assert_eq!(extract_command(response), None);

    let response = "Text\n  !!!OCHA_RUN_CMD{\"a\": 1}\nEnding";
    assert_eq!(extract_command(response), Some("{\"a\": 1}"));

    let response = "!!!OCHA_RUN_CMD{\"binary\": \"ls\"} some trailing text";
    assert_eq!(extract_command(response), Some("{\"binary\": \"ls\"}"));
}

#[test]
fn a_request_can_be_read_back_from_an_answer() {
    for json in ["{}", "{\"a\":\"}\"}", "{\"a\":{\"b\":1}}"] {
        for before in ["", "text\n", "text\r\n\r\n"] {
            for after in ["", "\nmore", " trailing", "\r\nmore"] {
                let answer = format!("{before}!!!OCHA_RUN_CMD{json}{after}");
                assert_eq!(extract_command(&answer), Some(json), "{answer:?}");
            }
        }
    }
}

#[test]
fn the_first_command_counts_and_may_have_no_braces() {
    assert_eq!(extract_command("!!!OCHA_RUN_CMD{1}\n!!!OCHA_RUN_CMD{2}"), Some("{1}"));
    assert_eq!(extract_command("!!!OCHA_RUN_CMD ls -la\r\nx"), Some(" ls -la"));
    assert_eq!(extract_command("!!!OCHA_RUN_CMD"), Some(""));
    assert_eq!(extract_command(""), None);
    assert_eq!(extract_command("!!!OCHA_RUN_CM"), None);
    assert_eq!(extract_command("\u{3000}!!!OCHA_RUN_CMD{}"), Some("{}"));
}

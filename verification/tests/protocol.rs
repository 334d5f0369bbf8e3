use vim_matlab::protocol::{parse_message, Command};
use vim_matlab::text::{decimal_text, trim, white_space};

#[test]
fn parse_cancel() {
    assert_eq!(parse_message("cancel"), Command::Cancel);
}

#[test]
fn parse_kill() {
    assert_eq!(parse_message("kill"), Command::Kill);
}

#[test]
fn parse_code() {
    assert_eq!(
        parse_message("disp('hello')"),
        Command::RunCode("disp('hello')".to_string()),
    );
}

#[test]
fn parse_whitespace_trimming() {
    assert_eq!(parse_message("  cancel  "), Command::Cancel);
    assert_eq!(parse_message("\tkill\n"), Command::Kill);
    assert_eq!(
        parse_message("  x = 1  "),
        Command::RunCode("x = 1".to_string()),
    );
}

#[test]
fn parse_empty_is_code() {
    // An empty (whitespace-only) message becomes RunCode("")
    assert_eq!(parse_message("   "), Command::RunCode(String::new()));
}

#[test]
fn parse_case_sensitive() {
    // "Cancel" (capitalised) is NOT the cancel keyword
    assert_eq!(
        parse_message("Cancel"),
        Command::RunCode("Cancel".to_string()),
    );
}

#[test]
fn parse_multiline_code() {
    let code = "x = 1;\ny = 2;";
    assert_eq!(parse_message(code), Command::RunCode(code.to_string()));
}

#[test]
fn parse_code_with_keywords() {
    // "kill" inside a string shouldn't trigger the Kill command
    let code = "disp('kill')";
    assert_eq!(parse_message(code), Command::RunCode(code.to_string()));
}

#[test]
fn padding_does_not_change_the_command() {
    assert_eq!(parse_message("\u{3000}cancel\u{85}\r"), Command::Cancel);
    assert_eq!(parse_message("\u{2003}\u{1680}kill\u{a0}"), Command::Kill);
    // A zero-width space is not white space.
    assert_eq!(
        parse_message("kill\u{200b}"),
        Command::RunCode("kill\u{200b}".to_string()),
    );
}

#[test]
fn keyword_with_text_beside_it_is_code() {
    for message in ["kill all", "please cancel", "cancelkill", "killkill", "ki ll"] {
        assert_eq!(
            parse_message(message),
            Command::RunCode(message.to_string()),
        );
    }
}

#[test]
fn resent_code_is_the_same_code() {
    for message in ["  x = 1 ;  ", "", "\n\ta\tb\n"] {
        match parse_message(message) {
            Command::RunCode(code) => {
                assert_eq!(parse_message(&code), Command::RunCode(code.clone()))
            }
            other => panic!("{:?}", other),
        }
    }
}

#[test]
fn white_space_is_that_of_unicode() {
    for u in 0..=0x10ffffu32 {
        if let Some(c) = char::from_u32(u) {
            assert_eq!(white_space(c), c.is_whitespace(), "{:x}", u);
        }
    }
}

#[test]
fn trimming_strips_both_ends_only() {
    for text in ["", " ", "a", " a", "a ", "\t a b \u{2029}", "\u{e9}  \u{e9} "] {
        assert_eq!(trim(text), text.trim());
    }
}

#[test]
fn decimal_notation() {
    for n in [0, 7, 10, 19, 1000, 65534, u64::from(u32::MAX), u64::MAX] {
        assert_eq!(decimal_text(n), format!("{}", n));
    }
}

use tui_chat::protocol::{
    parse_reply, password_reply_outcome, reply_text, username_after_input,
    username_reply_accepted, PasswordOutcome, ReplyCode,
};
use tui_chat::text::{chars_of, join_lines, trim};

#[test]
fn reply_texts_are_the_wire_codes() {
    assert_eq!(reply_text(ReplyCode::Accepted), "100");
    assert_eq!(reply_text(ReplyCode::Registering), "101");
    assert_eq!(reply_text(ReplyCode::WrongPassword), "102");
}

#[test]
fn every_reply_code_reads_back_as_itself() {
    for code in [ReplyCode::Accepted, ReplyCode::Registering, ReplyCode::WrongPassword] {
        assert_eq!(parse_reply(&reply_text(code)), Some(code));
    }
}

#[test]
fn replies_are_read_trimmed() {
    assert_eq!(parse_reply("  100\r\n"), Some(ReplyCode::Accepted));
    assert_eq!(parse_reply("\t101 "), Some(ReplyCode::Registering));
    assert_eq!(parse_reply("102\n"), Some(ReplyCode::WrongPassword));
    assert_eq!(parse_reply("103"), None);
    assert_eq!(parse_reply("1 00"), None);
    assert_eq!(parse_reply(""), None);
}

#[test]
fn username_stage_accepts_known_and_new_users_only() {
    assert!(username_reply_accepted("100"));
    assert!(username_reply_accepted("101"));
    assert!(!username_reply_accepted("102"));
    assert!(!username_reply_accepted("hello"));
}

#[test]
fn password_stage_outcomes() {
    assert_eq!(password_reply_outcome("100"), PasswordOutcome::Accepted);
    assert_eq!(password_reply_outcome("101"), PasswordOutcome::Accepted);
    assert_eq!(password_reply_outcome(" 102 "), PasswordOutcome::WrongPassword);
    assert_eq!(password_reply_outcome("999"), PasswordOutcome::Unrecognized);
}

#[test]
fn username_is_trimmed_line() {
    assert_eq!(username_after_input("", "alice\n"), "alice");
    assert_eq!(username_after_input("", "  bob  \r\n"), "bob");
}

#[test]
fn username_retry_keeps_the_earlier_attempt() {
    // The line read on a second attempt is added to what the first left.
    assert_eq!(username_after_input("alice", "bob\n"), "alicebob");
    assert_eq!(username_after_input("alice", "\n"), "alice");
}

#[test]
fn trim_removes_unicode_whitespace_at_both_ends() {
    assert_eq!(trim("\u{3000}\u{a0} hi there \u{2003}\n"), "hi there");
    assert_eq!(trim("   "), "");
    assert_eq!(trim("x"), "x");
    let inner = "a \u{2028} b";
    assert_eq!(trim(inner), inner);
}

#[test]
fn trim_agrees_with_std() {
    for s in ["", " a ", "\u{85}x\u{85}", "\u{200b}zero\u{200b}", "\u{180e}m", "\u{1680} y"] {
        assert_eq!(trim(s), s.trim());
    }
}

#[test]
fn trim_twice_is_trim_once() {
    let s = "  \t padded \n ";
    assert_eq!(trim(&trim(s)), trim(s));
}

#[test]
fn chars_of_keeps_order() {
    assert_eq!(chars_of("héllo"), vec!['h', 'é', 'l', 'l', 'o']);
}

#[test]
fn join_lines_puts_separator_between() {
    let lines = vec!["a".to_string(), "bc".to_string(), "".to_string(), "d".to_string()];
    assert_eq!(join_lines(&lines, "\n"), "a\nbc\n\nd");
    assert_eq!(join_lines(&[], "\n"), "");
    assert_eq!(join_lines(&["one".to_string()], "\n"), "one");
}

use tui_chat::login::{LoginAction, LoginEvent, LoginPhase, ServerLogin};
use tui_chat::protocol::{
    password_reply_outcome, reply_text, username_reply_accepted, PasswordOutcome, ReplyCode,
};

fn s(x: &str) -> String {
    x.to_string()
}

#[test]
fn known_user_with_right_password_is_admitted() {
    let mut l = ServerLogin::new(s("10.0.0.2:5000"));
    assert_eq!(l.step(LoginEvent::Line(s("alice"))), vec![LoginAction::LookUpUser { username: s("alice") }]);
    assert_eq!(l.step(LoginEvent::UserCount(1)), vec![LoginAction::Reply(ReplyCode::Accepted)]);
    assert_eq!(
        l.step(LoginEvent::Line(s("pw"))),
        vec![LoginAction::CheckPassword { username: s("alice"), password: s("pw") }]
    );
    assert_eq!(
        l.step(LoginEvent::MatchCount(1)),
        vec![LoginAction::Reply(ReplyCode::Accepted), LoginAction::Admit { username: s("alice") }]
    );
    assert_eq!(l.phase(), &LoginPhase::Admitted { username: s("alice") });
}

#[test]
fn new_user_is_registered_with_its_address() {
    let mut l = ServerLogin::new(s("10.0.0.3:6000"));
    l.step(LoginEvent::Line(s("carol")));
    assert_eq!(l.step(LoginEvent::UserCount(0)), vec![LoginAction::Reply(ReplyCode::Registering)]);
    assert_eq!(
        l.step(LoginEvent::Line(s("secret"))),
        vec![LoginAction::Register {
            username: s("carol"),
            password: s("secret"),
            addr: s("10.0.0.3:6000")
        }]
    );
    assert_eq!(
        l.step(LoginEvent::Registered),
        vec![LoginAction::Reply(ReplyCode::Accepted), LoginAction::Admit { username: s("carol") }]
    );
}

#[test]
fn wrong_password_is_answered_102_until_right() {
    let mut l = ServerLogin::new(s("a"));
    l.step(LoginEvent::Line(s("bob")));
    l.step(LoginEvent::UserCount(3));
    l.step(LoginEvent::Line(s("bad")));
    assert_eq!(l.step(LoginEvent::MatchCount(0)), vec![LoginAction::Reply(ReplyCode::WrongPassword)]);
    assert_eq!(l.phase(), &LoginPhase::AwaitRetry { username: s("bob") });
    assert_eq!(
        l.step(LoginEvent::Line(s("good"))),
        vec![LoginAction::CheckPassword { username: s("bob"), password: s("good") }]
    );
    assert_eq!(
        l.step(LoginEvent::MatchCount(1)),
        vec![LoginAction::Reply(ReplyCode::Accepted), LoginAction::Admit { username: s("bob") }]
    );
}

#[test]
fn lost_stream_while_retrying_repeats_102() {
    let mut l = ServerLogin::new(s("a"));
    l.step(LoginEvent::Line(s("bob")));
    l.step(LoginEvent::UserCount(1));
    l.step(LoginEvent::Line(s("bad")));
    l.step(LoginEvent::MatchCount(0));
    assert_eq!(l.step(LoginEvent::StreamEnded), vec![LoginAction::Reply(ReplyCode::WrongPassword)]);
    assert_eq!(l.phase(), &LoginPhase::AwaitRetry { username: s("bob") });
}

#[test]
fn lost_stream_before_password_drops_connection() {
    let mut l = ServerLogin::new(s("a"));
    assert_eq!(l.step(LoginEvent::StreamEnded), vec![LoginAction::Disconnect]);
    assert_eq!(l.phase(), &LoginPhase::Dropped);
    let mut l = ServerLogin::new(s("a"));
    l.step(LoginEvent::Line(s("x")));
    l.step(LoginEvent::UserCount(0));
    assert_eq!(l.step(LoginEvent::StreamEnded), vec![LoginAction::Disconnect]);
    assert_eq!(l.phase(), &LoginPhase::Dropped);
}

#[test]
fn events_out_of_turn_change_nothing() {
    let mut l = ServerLogin::new(s("a"));
    assert_eq!(l.step(LoginEvent::Registered), vec![]);
    assert_eq!(l.step(LoginEvent::MatchCount(5)), vec![]);
    assert_eq!(l.phase(), &LoginPhase::AwaitUsername);
}

#[test]
fn admitted_connection_takes_no_more_steps() {
    let mut l = ServerLogin::new(s("a"));
    l.step(LoginEvent::Line(s("n")));
    l.step(LoginEvent::UserCount(0));
    l.step(LoginEvent::Line(s("p")));
    l.step(LoginEvent::Registered);
    assert_eq!(l.step(LoginEvent::Line(s("more"))), vec![]);
    assert_eq!(l.step(LoginEvent::StreamEnded), vec![]);
    assert_eq!(l.phase(), &LoginPhase::Admitted { username: s("n") });
}

#[test]
fn negative_counts_count_as_found() {
    let mut l = ServerLogin::new(s("a"));
    l.step(LoginEvent::Line(s("n")));
    assert_eq!(l.step(LoginEvent::UserCount(-1)), vec![LoginAction::Reply(ReplyCode::Accepted)]);
}

#[test]
fn client_reads_the_servers_replies_as_meant() {
    for count in [0i64, 1, 7] {
        let mut l = ServerLogin::new(s("a"));
        l.step(LoginEvent::Line(s("u")));
        match &l.step(LoginEvent::UserCount(count))[0] {
            LoginAction::Reply(code) => assert!(username_reply_accepted(&reply_text(*code))),
            other => panic!("unexpected {:?}", other),
        }
    }
    let mut l = ServerLogin::new(s("a"));
    l.step(LoginEvent::Line(s("u")));
    l.step(LoginEvent::UserCount(1));
    l.step(LoginEvent::Line(s("p")));
    match &l.step(LoginEvent::MatchCount(0))[0] {
        LoginAction::Reply(code) => {
            assert_eq!(password_reply_outcome(&reply_text(*code)), PasswordOutcome::WrongPassword)
        }
        other => panic!("unexpected {:?}", other),
    }
    l.step(LoginEvent::Line(s("q")));
    match &l.step(LoginEvent::MatchCount(1))[0] {
        LoginAction::Reply(code) => {
            assert_eq!(password_reply_outcome(&reply_text(*code)), PasswordOutcome::Accepted)
        }
        other => panic!("unexpected {:?}", other),
    }
}

#[test]
fn admission_comes_right_after_the_stores_answer() {
    let mut l = ServerLogin::new(s("a"));
    l.step(LoginEvent::Line(s("dan")));
    l.step(LoginEvent::UserCount(1));
    l.step(LoginEvent::Line(s("x")));
    // A zero count never admits.
    assert!(!l.step(LoginEvent::MatchCount(0)).iter().any(|a| matches!(a, LoginAction::Admit { .. })));
    l.step(LoginEvent::Line(s("y")));
    let acts = l.step(LoginEvent::MatchCount(2));
    assert_eq!(acts.last(), Some(&LoginAction::Admit { username: s("dan") }));
}

//! The reply codes of the login handshake, as the server sends them and the
//! client reads them.

use vstd::prelude::*;
use crate::text::{is_white_space, trim, trim_back, trim_front, trimmed};

verus! {

/// A reply the server sends during login, one line each.
#[derive(Clone, Copy, Debug, PartialEq, Eq, Structural)]
pub enum ReplyCode {
    /// "100": the username is known, or the login is complete.
    Accepted,
    /// "101": the username is new; the password that follows registers it.
    Registering,
    /// "102": the password does not match the username; send another.
    WrongPassword,
}

/// The text of a reply code on the wire.
pub open spec fn reply_chars(code: ReplyCode) -> Seq<char> {
    match code {
        ReplyCode::Accepted => seq!['1', '0', '0'],
        ReplyCode::Registering => seq!['1', '0', '1'],
        ReplyCode::WrongPassword => seq!['1', '0', '2'],
    }
}

/// The reply code that a line holds once trimmed, if any.
pub open spec fn reply_of(line: Seq<char>) -> Option<ReplyCode> {
    let t = trimmed(line);
    if t == reply_chars(ReplyCode::Accepted) {
        Some(ReplyCode::Accepted)
    } else if t == reply_chars(ReplyCode::Registering) {
        Some(ReplyCode::Registering)
    } else if t == reply_chars(ReplyCode::WrongPassword) {
        Some(ReplyCode::WrongPassword)
    } else {
        None
    }
}

/// What the client makes of a reply to its password.
#[derive(Clone, Copy, Debug, PartialEq, Eq, Structural)]
pub enum PasswordOutcome {
    /// "100" or "101": the client is in.
    Accepted,
    /// "102": the password was wrong; ask again.
    WrongPassword,
    /// Anything else: ask again without a word.
    Unrecognized,
}

/// Whether the client takes a reply to its username as acceptance.
pub open spec fn username_reply_ok(line: Seq<char>) -> bool {
    reply_of(line) == Some(ReplyCode::Accepted) || reply_of(line) == Some(ReplyCode::Registering)
}

pub open spec fn password_outcome_of(line: Seq<char>) -> PasswordOutcome {
    match reply_of(line) {
        Some(ReplyCode::Accepted) => PasswordOutcome::Accepted,
        Some(ReplyCode::Registering) => PasswordOutcome::Accepted,
        Some(ReplyCode::WrongPassword) => PasswordOutcome::WrongPassword,
        None => PasswordOutcome::Unrecognized,
    }
}


/// Trimming the text of a code changes nothing.
proof fn lemma_reply_chars_trimmed(code: ReplyCode)
    ensures
        trimmed(reply_chars(code)) == reply_chars(code),
{
    let s = reply_chars(code);
    assert(!is_white_space(s[0]));
    assert(trim_front(s) == s);
    assert(!is_white_space(s.last()));
    assert(trim_back(s) == s);
}

/// Every reply code reads back as itself.
pub proof fn lemma_reply_round_trip(code: ReplyCode)
    ensures
        reply_of(reply_chars(code)) == Some(code),
{
    lemma_reply_chars_trimmed(code);
    assert(reply_chars(ReplyCode::Accepted)[2] != reply_chars(ReplyCode::Registering)[2]);
    assert(reply_chars(ReplyCode::Accepted)[2] != reply_chars(ReplyCode::WrongPassword)[2]);
    assert(reply_chars(ReplyCode::Registering)[2] != reply_chars(ReplyCode::WrongPassword)[2]);
}

/// The client reads the server's replies as the server means them: after a
/// username, "100" and "101" both let it go on and "102" does not; after a
/// password, "100" and "101" let it in and "102" asks for another.
pub proof fn lemma_client_reads_server_replies(code: ReplyCode)
    ensures
        username_reply_ok(reply_chars(code)) <==> code != ReplyCode::WrongPassword,
        password_outcome_of(reply_chars(code)) == (match code {
            ReplyCode::WrongPassword => PasswordOutcome::WrongPassword,
            _ => PasswordOutcome::Accepted,
        }),
{
    lemma_reply_round_trip(code);
}

/// The line the server sends for `code`.
pub fn reply_text(code: ReplyCode) -> (s: String)
    ensures
        s@ == reply_chars(code),
{
    match code {
        ReplyCode::Accepted => {
            proof {
                reveal_strlit("100");
            }
            String::from_str("100")
        },
        ReplyCode::Registering => {
            proof {
                reveal_strlit("101");
            }
            String::from_str("101")
        },
        ReplyCode::WrongPassword => {
            proof {
                reveal_strlit("102");
            }
            String::from_str("102")
        },
    }
}

/// Reads a reply line: surrounding whitespace is ignored.
pub fn parse_reply(line: &str) -> (r: Option<ReplyCode>)
    ensures
        r == reply_of(line@),
{
    let t = trim(line);
    if t == reply_text(ReplyCode::Accepted) {
        Some(ReplyCode::Accepted)
    } else if t == reply_text(ReplyCode::Registering) {
        Some(ReplyCode::Registering)
    } else if t == reply_text(ReplyCode::WrongPassword) {
        Some(ReplyCode::WrongPassword)
    } else {
        None
    }
}

/// Whether the reply to a username lets the client go on to the password.
pub fn username_reply_accepted(line: &str) -> (b: bool)
    ensures
        b == username_reply_ok(line@),
{
    match parse_reply(line) {
        Some(ReplyCode::Accepted) => true,
        Some(ReplyCode::Registering) => true,
        _ => false,
    }
}

/// What the reply to a password means to the client.
pub fn password_reply_outcome(line: &str) -> (o: PasswordOutcome)
    ensures
        o == password_outcome_of(line@),
{
    match parse_reply(line) {
        Some(ReplyCode::Accepted) => PasswordOutcome::Accepted,
        Some(ReplyCode::Registering) => PasswordOutcome::Accepted,
        Some(ReplyCode::WrongPassword) => PasswordOutcome::WrongPassword,
        None => PasswordOutcome::Unrecognized,
    }
}

/// The username the client holds after reading `typed`: the line is added to
/// what it held before, and the whole is trimmed.
pub fn username_after_input(previous: &str, typed: &str) -> (u: String)
    ensures
        u@ == trimmed(previous@ + typed@),
{
    let joined = String::from_str(previous).concat(typed);
    trim(joined.as_str())
}

} // verus!

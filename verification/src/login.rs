//! The server's side of the login handshake, one connection at a time.
//!
//! The handshake alternates reads from the client, queries of the user store
//! and replies; this module decides each step, and the caller performs the
//! reads, queries and writes.

use vstd::prelude::*;
use crate::protocol::{
    lemma_client_reads_server_replies, password_outcome_of, reply_chars, username_reply_ok,
    PasswordOutcome, ReplyCode,
};

verus! {

/// Where a connection stands in the handshake.
#[derive(Clone, Debug, PartialEq, Eq)]
pub enum LoginPhase {
    /// Waiting for the client's first line, its username.
    AwaitUsername,
    /// Waiting for the store to say how many users have this name.
    AwaitLookup { username: String },
    /// Waiting for the first password line.
    AwaitPassword { username: String, known: bool },
    /// Waiting for the store to say whether the password matches.
    AwaitCheck { username: String },
    /// Waiting for the store to record a new user.
    AwaitRegistration { username: String },
    /// A wrong password was answered; waiting for another one.
    AwaitRetry { username: String },
    /// The client is in; its chat session starts.
    Admitted { username: String },
    /// The client left before the handshake was over.
    Dropped,
}

/// What the caller observed since the last step.
#[derive(Clone, Debug, PartialEq, Eq)]
pub enum LoginEvent {
    /// A line arrived from the client.
    Line(String),
    /// Reading from the client failed or the client closed the connection.
    StreamEnded,
    /// The number of stored users with the username.
    UserCount(i64),
    /// The number of stored users with the username and the password.
    MatchCount(i64),
    /// The new user was stored.
    Registered,
}

/// What the caller is to do, in order.
#[derive(Clone, Debug, PartialEq, Eq)]
pub enum LoginAction {
    /// Send this reply line to the client.
    Reply(ReplyCode),
    /// Count the stored users named `username`.
    LookUpUser { username: String },
    /// Count the stored users with this username and password.
    CheckPassword { username: String, password: String },
    /// Store a new user, with the address it connected from.
    Register { username: String, password: String, addr: String },
    /// Hand the connection to the chat room.
    Admit { username: String },
    /// Close the connection and wait for the next one.
    Disconnect,
}

/// The next phase and the actions for one event.
pub open spec fn login_transition(phase: LoginPhase, addr: String, event: LoginEvent) -> (
    LoginPhase,
    Seq<LoginAction>,
) {
    match (phase, event) {
        (LoginPhase::AwaitUsername, LoginEvent::Line(name)) => (
            LoginPhase::AwaitLookup { username: name },
            seq![LoginAction::LookUpUser { username: name }],
        ),
        (LoginPhase::AwaitUsername, LoginEvent::StreamEnded) => (
            LoginPhase::Dropped,
            seq![LoginAction::Disconnect],
        ),
        (LoginPhase::AwaitLookup { username }, LoginEvent::UserCount(n)) => (
            LoginPhase::AwaitPassword { username, known: n != 0 },
            seq![
                LoginAction::Reply(
                    if n != 0 {
                        ReplyCode::Accepted
                    } else {
                        ReplyCode::Registering
                    },
                ),
            ],
        ),
        (LoginPhase::AwaitPassword { username, known }, LoginEvent::Line(pw)) => if known {
            (
                LoginPhase::AwaitCheck { username },
                seq![LoginAction::CheckPassword { username, password: pw }],
            )
        } else {
            (
                LoginPhase::AwaitRegistration { username },
                seq![LoginAction::Register { username, password: pw, addr }],
            )
        },
        (LoginPhase::AwaitPassword { .. }, LoginEvent::StreamEnded) => (
            LoginPhase::Dropped,
            seq![LoginAction::Disconnect],
        ),
        (LoginPhase::AwaitCheck { username }, LoginEvent::MatchCount(n)) => if n != 0 {
            (
                LoginPhase::Admitted { username },
                seq![
                    LoginAction::Reply(ReplyCode::Accepted),
                    LoginAction::Admit { username },
                ],
            )
        } else {
            (
                LoginPhase::AwaitRetry { username },
                seq![LoginAction::Reply(ReplyCode::WrongPassword)],
            )
        },
        (LoginPhase::AwaitRegistration { username }, LoginEvent::Registered) => (
            LoginPhase::Admitted { username },
            seq![LoginAction::Reply(ReplyCode::Accepted), LoginAction::Admit { username }],
        ),
        (LoginPhase::AwaitRetry { username }, LoginEvent::Line(pw)) => (
            LoginPhase::AwaitCheck { username },
            seq![LoginAction::CheckPassword { username, password: pw }],
        ),
        (LoginPhase::AwaitRetry { username }, LoginEvent::StreamEnded) => (
            LoginPhase::AwaitRetry { username },
            seq![LoginAction::Reply(ReplyCode::WrongPassword)],
        ),
        (p, _) => (p, seq![]),
    }
}

/// One connection's handshake.
pub struct ServerLogin {
    phase: LoginPhase,
    peer_addr: String,
}

impl ServerLogin {
    pub closed spec fn current_phase(&self) -> LoginPhase {
        self.phase
    }

    pub closed spec fn peer(&self) -> String {
        self.peer_addr
    }

    /// A handshake for a client that connected from `peer_addr`.
    pub fn new(peer_addr: String) -> (s: Self)
        ensures
            s.current_phase() == LoginPhase::AwaitUsername,
            s.peer() == peer_addr,
    {
        ServerLogin { phase: LoginPhase::AwaitUsername, peer_addr }
    }

    /// Where the handshake stands.
    pub fn phase(&self) -> (p: &LoginPhase)
        ensures
            *p == self.current_phase(),
    {
        &self.phase
    }

    /// Takes one event and says what to do next.
    pub fn step(&mut self, event: LoginEvent) -> (actions: Vec<LoginAction>)
        ensures
            final(self).peer() == old(self).peer(),
            (final(self).current_phase(), actions@) == login_transition(
                old(self).current_phase(),
                old(self).peer(),
                event,
            ),
    {
        let mut actions: Vec<LoginAction> = Vec::new();
        let next = match (&self.phase, event) {
            (LoginPhase::AwaitUsername, LoginEvent::Line(name)) => {
                actions.push(LoginAction::LookUpUser { username: name.clone() });
                Some(LoginPhase::AwaitLookup { username: name })
            },
            (LoginPhase::AwaitUsername, LoginEvent::StreamEnded) => {
                actions.push(LoginAction::Disconnect);
                Some(LoginPhase::Dropped)
            },
            (LoginPhase::AwaitLookup { username }, LoginEvent::UserCount(n)) => {
                let code = if n != 0 {
                    ReplyCode::Accepted
                } else {
                    ReplyCode::Registering
                };
                actions.push(LoginAction::Reply(code));
                Some(LoginPhase::AwaitPassword { username: username.clone(), known: n != 0 })
            },
            (LoginPhase::AwaitPassword { username, known }, LoginEvent::Line(pw)) => {
                if *known {
                    actions.push(
                        LoginAction::CheckPassword { username: username.clone(), password: pw },
                    );
                    Some(LoginPhase::AwaitCheck { username: username.clone() })
                } else {
                    actions.push(
                        LoginAction::Register {
                            username: username.clone(),
                            password: pw,
                            addr: self.peer_addr.clone(),
                        },
                    );
                    Some(LoginPhase::AwaitRegistration { username: username.clone() })
                }
            },
            (LoginPhase::AwaitPassword { .. }, LoginEvent::StreamEnded) => {
                actions.push(LoginAction::Disconnect);
                Some(LoginPhase::Dropped)
            },
            (LoginPhase::AwaitCheck { username }, LoginEvent::MatchCount(n)) => {
                if n != 0 {
                    actions.push(LoginAction::Reply(ReplyCode::Accepted));
                    actions.push(LoginAction::Admit { username: username.clone() });
                    Some(LoginPhase::Admitted { username: username.clone() })
                } else {
                    actions.push(LoginAction::Reply(ReplyCode::WrongPassword));
                    Some(LoginPhase::AwaitRetry { username: username.clone() })
                }
            },
            (LoginPhase::AwaitRegistration { username }, LoginEvent::Registered) => {
                actions.push(LoginAction::Reply(ReplyCode::Accepted));
                actions.push(LoginAction::Admit { username: username.clone() });
                Some(LoginPhase::Admitted { username: username.clone() })
            },
            (LoginPhase::AwaitRetry { username }, LoginEvent::Line(pw)) => {
                actions.push(
                    LoginAction::CheckPassword { username: username.clone(), password: pw },
                );
                Some(LoginPhase::AwaitCheck { username: username.clone() })
            },
            (LoginPhase::AwaitRetry { username }, LoginEvent::StreamEnded) => {
                actions.push(LoginAction::Reply(ReplyCode::WrongPassword));
                Some(LoginPhase::AwaitRetry { username: username.clone() })
            },
            _ => None,
        };
        if let Some(p) = next {
            self.phase = p;
        }
        actions
    }
}

} // verus!

verus! {

/// The phase reached and the actions issued over a run of events.
pub open spec fn login_run(phase: LoginPhase, addr: String, events: Seq<LoginEvent>) -> (
    LoginPhase,
    Seq<LoginAction>,
)
    decreases events.len(),
{
    if events.len() == 0 {
        (phase, seq![])
    } else {
        let (p, acts) = login_run(phase, addr, events.drop_last());
        let (q, more) = login_transition(p, addr, events.last());
        (q, acts + more)
    }
}

/// Whether an action asks the store to vouch for `username`: a password
/// check or a registration.
pub open spec fn vouches_for(action: LoginAction, username: String) -> bool {
    ||| action matches LoginAction::CheckPassword { username: u, .. } && u == username
    ||| action matches LoginAction::Register { username: u, .. } && u == username
}

pub open spec fn vouched_before(acts: Seq<LoginAction>, username: String, bound: int) -> bool {
    exists|i: int| 0 <= i < bound && #[trigger] vouches_for(acts[i], username)
}

/// Once a client is admitted or dropped, nothing more happens.
pub proof fn lemma_final_phases_absorb(phase: LoginPhase, addr: String, event: LoginEvent)
    requires
        phase is Admitted || phase is Dropped,
    ensures
        login_transition(phase, addr, event) == (phase, Seq::<LoginAction>::empty()),
{
}

spec fn run_invariant(p: LoginPhase, acts: Seq<LoginAction>) -> bool {
    &&& p matches LoginPhase::AwaitCheck { username } ==> vouched_before(
        acts,
        username,
        acts.len() as int,
    )
    &&& p matches LoginPhase::AwaitRegistration { username } ==> vouched_before(
        acts,
        username,
        acts.len() as int,
    )
    &&& forall|j: int|
        0 <= j < acts.len() && (#[trigger] acts[j] is Admit) ==> {
            &&& j == acts.len() - 1
            &&& p == LoginPhase::Admitted { username: acts[j]->Admit_username }
            &&& vouched_before(acts, acts[j]->Admit_username, j)
        }
    &&& p matches LoginPhase::Admitted { username } ==> acts.len() > 0 && acts.last()
        == LoginAction::Admit { username }
}

proof fn lemma_run_invariant(addr: String, events: Seq<LoginEvent>)
    ensures
        run_invariant(
            login_run(LoginPhase::AwaitUsername, addr, events).0,
            login_run(LoginPhase::AwaitUsername, addr, events).1,
        ),
    decreases events.len(),
{
    if events.len() > 0 {
        lemma_run_invariant(addr, events.drop_last());
        let (p, acts) = login_run(LoginPhase::AwaitUsername, addr, events.drop_last());
        let (q, more) = login_transition(p, addr, events.last());
        let all = acts + more;
        assert forall|u: String, b: int|
            0 <= b <= acts.len() && vouched_before(acts, u, b) implies vouched_before(
            all,
            u,
            b,
        ) by {
            let i = choose|i: int| 0 <= i < b && #[trigger] vouches_for(acts[i], u);
            assert(all[i] == acts[i]);
        }
        match (p, events.last()) {
            (LoginPhase::AwaitPassword { username, known }, LoginEvent::Line(pw)) => {
                assert(vouches_for(all[acts.len() as int], username));
            },
            (LoginPhase::AwaitRetry { username }, LoginEvent::Line(pw)) => {
                assert(vouches_for(all[acts.len() as int], username));
            },
            (LoginPhase::AwaitCheck { username }, LoginEvent::MatchCount(n)) => {
                if n != 0 {
                    assert(all[acts.len() as int + 1] is Admit);
                }
            },
            _ => {},
        }
        assert forall|j: int|
            0 <= j < all.len() && (#[trigger] all[j] is Admit) implies {
            &&& j == all.len() - 1
            &&& q == LoginPhase::Admitted { username: all[j]->Admit_username }
            &&& vouched_before(all, all[j]->Admit_username, j)
        } by {
            if j < acts.len() {
                assert(acts[j] is Admit);
                assert(p is Admitted);
                assert(more.len() == 0);
            } else {
                assert(more[j - acts.len()] is Admit);
            }
        }
    }
}

/// Whether one step admits `username`: the store answered a password check
/// for that username with a non-zero count, or it stored that username as a
/// new user.
pub open spec fn admitting_step(phase: LoginPhase, event: LoginEvent, username: String) -> bool {
    ||| phase == LoginPhase::AwaitCheck { username } && (event matches LoginEvent::MatchCount(n)
        && n != 0)
    ||| phase == LoginPhase::AwaitRegistration { username } && event == LoginEvent::Registered
}

proof fn lemma_admitted_by_store_answer(addr: String, events: Seq<LoginEvent>, username: String)
    requires
        login_run(LoginPhase::AwaitUsername, addr, events).0 == (LoginPhase::Admitted { username }),
    ensures
        exists|k: int|
            0 <= k < events.len() && admitting_step(
                #[trigger] login_run(LoginPhase::AwaitUsername, addr, events.take(k)).0,
                events[k],
                username,
            ),
    decreases events.len(),
{
    let init = LoginPhase::AwaitUsername;
    if events.len() == 0 {
    } else {
        let prev = events.drop_last();
        let p = login_run(init, addr, prev).0;
        if p == (LoginPhase::Admitted { username }) {
            lemma_admitted_by_store_answer(addr, prev, username);
            let k = choose|k: int|
                0 <= k < prev.len() && admitting_step(
                    #[trigger] login_run(init, addr, prev.take(k)).0,
                    prev[k],
                    username,
                );
            assert(prev.take(k) =~= events.take(k));
            assert(prev[k] == events[k]);
        } else {
            let k = events.len() - 1;
            assert(events.take(k) =~= prev);
            assert(admitting_step(login_run(init, addr, events.take(k)).0, events[k], username));
        }
    }
}

/// Over any run from a fresh connection, a client is admitted at most once,
/// as the last thing that happens; a connection admitted as `username` ends
/// in that phase. Admission follows directly on the store's answer for that
/// same username: a non-zero count of users matching the username and the
/// password, or the new user having been stored; and that check or
/// registration was asked of the store before.
pub proof fn lemma_admission_follows_vouching(addr: String, events: Seq<LoginEvent>)
    ensures
        ({
            let (p, acts) = login_run(LoginPhase::AwaitUsername, addr, events);
            &&& forall|j: int|
                0 <= j < acts.len() && (#[trigger] acts[j] is Admit) ==> {
                    &&& j == acts.len() - 1
                    &&& p == LoginPhase::Admitted { username: acts[j]->Admit_username }
                    &&& vouched_before(acts, acts[j]->Admit_username, j)
                }
            &&& p matches LoginPhase::Admitted { username } ==> acts.len() > 0 && acts.last()
                == LoginAction::Admit { username }
            &&& p matches LoginPhase::Admitted { username } ==> exists|k: int|
                0 <= k < events.len() && admitting_step(
                    #[trigger] login_run(LoginPhase::AwaitUsername, addr, events.take(k)).0,
                    events[k],
                    username,
                )
        }),
{
    lemma_run_invariant(addr, events);
    let p = login_run(LoginPhase::AwaitUsername, addr, events).0;
    if let LoginPhase::Admitted { username } = p {
        lemma_admitted_by_store_answer(addr, events, username);
    }
}

/// The username a phase is about, if any.
pub open spec fn phase_username(p: LoginPhase) -> Option<String> {
    match p {
        LoginPhase::AwaitUsername => None,
        LoginPhase::Dropped => None,
        LoginPhase::AwaitLookup { username } => Some(username),
        LoginPhase::AwaitPassword { username, .. } => Some(username),
        LoginPhase::AwaitCheck { username } => Some(username),
        LoginPhase::AwaitRegistration { username } => Some(username),
        LoginPhase::AwaitRetry { username } => Some(username),
        LoginPhase::Admitted { username } => Some(username),
    }
}

/// Once a username is received it stays the one the handshake is about,
/// until the connection is dropped.
pub proof fn lemma_username_kept(phase: LoginPhase, addr: String, event: LoginEvent)
    requires
        phase_username(phase) is Some,
    ensures
        ({
            let next = login_transition(phase, addr, event).0;
            next is Dropped || phase_username(next) == phase_username(phase)
        }),
{
}

/// The client takes the server's answer to a username as leave to send a
/// password, whether the name was known or new; and it reads the answer to
/// a password check as the server meant it.
pub proof fn lemma_client_follows_server(username: String, addr: String, n: i64)
    ensures
        ({
            let acts = login_transition(
                LoginPhase::AwaitLookup { username },
                addr,
                LoginEvent::UserCount(n),
            ).1;
            &&& acts.len() == 1
            &&& acts[0] matches LoginAction::Reply(code)
            &&& username_reply_ok(reply_chars(code))
        }),
        ({
            let acts = login_transition(
                LoginPhase::AwaitCheck { username },
                addr,
                LoginEvent::MatchCount(n),
            ).1;
            &&& acts[0] matches LoginAction::Reply(code)
            &&& password_outcome_of(reply_chars(code)) == if n != 0 {
                PasswordOutcome::Accepted
            } else {
                PasswordOutcome::WrongPassword
            }
        }),
{
    lemma_client_reads_server_replies(ReplyCode::Accepted);
    lemma_client_reads_server_replies(ReplyCode::Registering);
    lemma_client_reads_server_replies(ReplyCode::WrongPassword);
}


/// The first line of a connection is the username, and it is looked up as
/// it came.
pub proof fn lemma_username_line_is_looked_up(name: String, addr: String)
    ensures
        login_transition(LoginPhase::AwaitUsername, addr, LoginEvent::Line(name)) == (
            LoginPhase::AwaitLookup { username: name },
            seq![LoginAction::LookUpUser { username: name }],
        ),
{
}

/// A username found in the store is answered "100" and marked known; one not
/// found is answered "101" and marked new.
pub proof fn lemma_lookup_answer(username: String, addr: String, n: i64)
    ensures
        n != 0 ==> login_transition(
            LoginPhase::AwaitLookup { username },
            addr,
            LoginEvent::UserCount(n),
        ) == (
            LoginPhase::AwaitPassword { username, known: true },
            seq![LoginAction::Reply(ReplyCode::Accepted)],
        ),
        n == 0 ==> login_transition(
            LoginPhase::AwaitLookup { username },
            addr,
            LoginEvent::UserCount(n),
        ) == (
            LoginPhase::AwaitPassword { username, known: false },
            seq![LoginAction::Reply(ReplyCode::Registering)],
        ),
{
}

/// A known user's password, whatever it is, is checked against the store
/// for that username, and the user is never registered again.
pub proof fn lemma_known_user_password_is_checked(username: String, pw: String, addr: String)
    ensures
        login_transition(
            LoginPhase::AwaitPassword { username, known: true },
            addr,
            LoginEvent::Line(pw),
        ) == (
            LoginPhase::AwaitCheck { username },
            seq![LoginAction::CheckPassword { username, password: pw }],
        ),
{
}

/// A new user's password, whatever it is, registers the user with that
/// password and the address it connected from; nothing is checked.
pub proof fn lemma_new_user_password_registers(username: String, pw: String, addr: String)
    ensures
        login_transition(
            LoginPhase::AwaitPassword { username, known: false },
            addr,
            LoginEvent::Line(pw),
        ) == (
            LoginPhase::AwaitRegistration { username },
            seq![LoginAction::Register { username, password: pw, addr }],
        ),
{
}

/// A password the store matches admits the user with "100"; one it does not
/// is answered "102" and another is awaited. A new password after "102" is
/// checked again, whatever it is, and a lost stream there is answered "102"
/// again.
pub proof fn lemma_check_answer(username: String, pw: String, addr: String, n: i64)
    ensures
        n != 0 ==> login_transition(
            LoginPhase::AwaitCheck { username },
            addr,
            LoginEvent::MatchCount(n),
        ) == (
            LoginPhase::Admitted { username },
            seq![LoginAction::Reply(ReplyCode::Accepted), LoginAction::Admit { username }],
        ),
        n == 0 ==> login_transition(
            LoginPhase::AwaitCheck { username },
            addr,
            LoginEvent::MatchCount(n),
        ) == (
            LoginPhase::AwaitRetry { username },
            seq![LoginAction::Reply(ReplyCode::WrongPassword)],
        ),
        login_transition(LoginPhase::AwaitRetry { username }, addr, LoginEvent::Line(pw)) == (
            LoginPhase::AwaitCheck { username },
            seq![LoginAction::CheckPassword { username, password: pw }],
        ),
        login_transition(LoginPhase::AwaitRetry { username }, addr, LoginEvent::StreamEnded) == (
            LoginPhase::AwaitRetry { username },
            seq![LoginAction::Reply(ReplyCode::WrongPassword)],
        ),
{
}

/// A stored registration admits the new user with "100".
pub proof fn lemma_registration_admits(username: String, addr: String)
    ensures
        login_transition(
            LoginPhase::AwaitRegistration { username },
            addr,
            LoginEvent::Registered,
        ) == (
            LoginPhase::Admitted { username },
            seq![LoginAction::Reply(ReplyCode::Accepted), LoginAction::Admit { username }],
        ),
{
}

} // verus!

//! The chat room: the server keeps every line it was sent and relays lines
//! between clients; the client relays lines from the server to its screen.

use vstd::prelude::*;

verus! {

/// Every line sent to the server, oldest first.
pub struct ChatHistory {
    lines: Vec<String>,
}

impl ChatHistory {
    pub closed spec fn messages(&self) -> Seq<String> {
        self.lines@
    }

    pub fn new() -> (h: Self)
        ensures
            h.messages() == Seq::<String>::empty(),
    {
        ChatHistory { lines: Vec::new() }
    }

    /// The number of recorded lines.
    pub fn len(&self) -> (n: usize)
        ensures
            n == self.messages().len(),
    {
        self.lines.len()
    }

    /// Adds a line at the end.
    pub fn record(&mut self, msg: String)
        ensures
            final(self).messages() == old(self).messages().push(msg),
    {
        self.lines.push(msg);
    }

    /// The lines a client is sent when it joins: all of them, in order.
    pub fn replay(&self) -> (out: Vec<String>)
        ensures
            out@ == self.messages(),
    {
        let mut out: Vec<String> = Vec::new();
        let n = self.lines.len();
        for i in 0..n
            invariant
                n == self.lines@.len(),
                out@ == self.lines@.subrange(0, i as int),
        {
            out.push(self.lines[i].clone());
            assert(out@ =~= self.lines@.subrange(0, i + 1));
        }
        assert(out@ =~= self.lines@);
        out
    }
}

/// What a client's session on the server observed.
#[derive(Clone, Debug, PartialEq, Eq)]
pub enum SessionEvent {
    /// The client sent a line.
    ClientLine(String),
    /// Reading from the client failed or the client left.
    ClientEnded,
    /// A line came from the room (any client, this one included).
    RoomLine(String),
    /// The room channel failed: closed, or this session fell behind.
    RoomFailed,
}

/// What the session does in reply.
#[derive(Clone, Debug, PartialEq, Eq)]
pub enum SessionAction {
    /// Store the line in the server's message log.
    Log(String),
    /// Send the line to everyone in the room.
    Broadcast(String),
    /// Send the line to this session's client.
    Deliver(String),
    /// End the session.
    Stop,
}

pub open spec fn session_transition(history: Seq<String>, event: SessionEvent) -> (
    Seq<String>,
    Seq<SessionAction>,
) {
    match event {
        SessionEvent::ClientLine(msg) => (
            history.push(msg),
            seq![SessionAction::Log(msg), SessionAction::Broadcast(msg)],
        ),
        SessionEvent::ClientEnded => (history, seq![SessionAction::Stop]),
        SessionEvent::RoomLine(msg) => (history, seq![SessionAction::Deliver(msg)]),
        SessionEvent::RoomFailed => (history, seq![SessionAction::Stop]),
    }
}

/// One step of a client's session: a line from the client is recorded,
/// logged and broadcast, in that order; a line from the room is delivered;
/// a failure on either side ends the session.
pub fn session_step(history: &mut ChatHistory, event: SessionEvent) -> (actions: Vec<
    SessionAction,
>)
    ensures
        (final(history).messages(), actions@) == session_transition(
            old(history).messages(),
            event,
        ),
{
    let mut actions: Vec<SessionAction> = Vec::new();
    match event {
        SessionEvent::ClientLine(msg) => {
            history.record(msg.clone());
            actions.push(SessionAction::Log(msg.clone()));
            actions.push(SessionAction::Broadcast(msg));
        },
        SessionEvent::ClientEnded => actions.push(SessionAction::Stop),
        SessionEvent::RoomLine(msg) => actions.push(SessionAction::Deliver(msg)),
        SessionEvent::RoomFailed => actions.push(SessionAction::Stop),
    }
    actions
}

/// The client lines among `events`, in order.
pub open spec fn client_lines(events: Seq<SessionEvent>) -> Seq<String>
    decreases events.len(),
{
    if events.len() == 0 {
        seq![]
    } else {
        let rest = client_lines(events.drop_last());
        match events.last() {
            SessionEvent::ClientLine(msg) => rest.push(msg),
            _ => rest,
        }
    }
}

/// The room lines among `events`, in order.
pub open spec fn room_lines(events: Seq<SessionEvent>) -> Seq<String>
    decreases events.len(),
{
    if events.len() == 0 {
        seq![]
    } else {
        let rest = room_lines(events.drop_last());
        match events.last() {
            SessionEvent::RoomLine(msg) => rest.push(msg),
            _ => rest,
        }
    }
}

pub open spec fn history_after(history: Seq<String>, events: Seq<SessionEvent>) -> Seq<String>
    decreases events.len(),
{
    if events.len() == 0 {
        history
    } else {
        session_transition(history_after(history, events.drop_last()), events.last()).0
    }
}

/// The actions of a run of session events, in order.
pub open spec fn session_actions(events: Seq<SessionEvent>) -> Seq<SessionAction>
    decreases events.len(),
{
    if events.len() == 0 {
        seq![]
    } else {
        session_actions(events.drop_last()) + session_transition(seq![], events.last()).1
    }
}

/// The lines that `acts` broadcast, in order.
pub open spec fn broadcast_lines(acts: Seq<SessionAction>) -> Seq<String>
    decreases acts.len(),
{
    if acts.len() == 0 {
        seq![]
    } else {
        let rest = broadcast_lines(acts.drop_last());
        match acts.last() {
            SessionAction::Broadcast(m) => rest.push(m),
            _ => rest,
        }
    }
}

/// The lines that `acts` log, in order.
pub open spec fn logged_lines(acts: Seq<SessionAction>) -> Seq<String>
    decreases acts.len(),
{
    if acts.len() == 0 {
        seq![]
    } else {
        let rest = logged_lines(acts.drop_last());
        match acts.last() {
            SessionAction::Log(m) => rest.push(m),
            _ => rest,
        }
    }
}

/// The lines that `acts` deliver to the client, in order.
pub open spec fn delivered_lines(acts: Seq<SessionAction>) -> Seq<String>
    decreases acts.len(),
{
    if acts.len() == 0 {
        seq![]
    } else {
        let rest = delivered_lines(acts.drop_last());
        match acts.last() {
            SessionAction::Deliver(m) => rest.push(m),
            _ => rest,
        }
    }
}

proof fn lemma_extract_concat(a: Seq<SessionAction>, b: Seq<SessionAction>)
    ensures
        broadcast_lines(a + b) == broadcast_lines(a) + broadcast_lines(b),
        logged_lines(a + b) == logged_lines(a) + logged_lines(b),
        delivered_lines(a + b) == delivered_lines(a) + delivered_lines(b),
    decreases b.len(),
{
    if b.len() == 0 {
        assert(a + b =~= a);
        assert(broadcast_lines(a) + seq![] =~= broadcast_lines(a));
        assert(logged_lines(a) + seq![] =~= logged_lines(a));
        assert(delivered_lines(a) + seq![] =~= delivered_lines(a));
    } else {
        lemma_extract_concat(a, b.drop_last());
        assert((a + b).drop_last() =~= a + b.drop_last());
        assert((a + b).last() == b.last());
        let (x, y, z) = (broadcast_lines(b.drop_last()), logged_lines(b.drop_last()), delivered_lines(b.drop_last()));
        assert((broadcast_lines(a) + x).push(b.last()->Broadcast_0) =~= broadcast_lines(a) + x.push(b.last()->Broadcast_0));
        assert((logged_lines(a) + y).push(b.last()->Log_0) =~= logged_lines(a) + y.push(b.last()->Log_0));
        assert((delivered_lines(a) + z).push(b.last()->Deliver_0) =~= delivered_lines(a) + z.push(b.last()->Deliver_0));
    }
}

proof fn lemma_step_extract(e: SessionEvent)
    ensures
        broadcast_lines(session_transition(seq![], e).1) == (match e {
            SessionEvent::ClientLine(m) => seq![m],
            _ => Seq::<String>::empty(),
        }),
        logged_lines(session_transition(seq![], e).1) == (match e {
            SessionEvent::ClientLine(m) => seq![m],
            _ => Seq::<String>::empty(),
        }),
        delivered_lines(session_transition(seq![], e).1) == (match e {
            SessionEvent::RoomLine(m) => seq![m],
            _ => Seq::<String>::empty(),
        }),
{
    reveal_with_fuel(broadcast_lines, 3);
    reveal_with_fuel(logged_lines, 3);
    reveal_with_fuel(delivered_lines, 3);
    let more = session_transition(seq![], e).1;
    assert(more.drop_last().drop_last() =~= seq![] || more.drop_last() =~= seq![]);
    if more.len() == 2 {
        assert(more.drop_last().drop_last() =~= seq![]);
        assert(broadcast_lines(more) =~= seq![e->ClientLine_0]);
        assert(logged_lines(more) =~= seq![e->ClientLine_0]);
        assert(delivered_lines(more) =~= seq![]);
    } else {
        assert(more.drop_last() =~= seq![]);
    }
}

/// Over any run of a session: every line the client sent is logged and
/// broadcast once, unchanged and in the order sent; nothing else is logged
/// or broadcast (a line from the room is never sent to the room again);
/// and every line from the room is delivered to the client once,
/// unchanged and in order.
pub proof fn lemma_session_relays_in_order(events: Seq<SessionEvent>)
    ensures
        broadcast_lines(session_actions(events)) == client_lines(events),
        logged_lines(session_actions(events)) == client_lines(events),
        delivered_lines(session_actions(events)) == room_lines(events),
    decreases events.len(),
{
    if events.len() > 0 {
        lemma_session_relays_in_order(events.drop_last());
        let more = session_transition(seq![], events.last()).1;
        lemma_extract_concat(session_actions(events.drop_last()), more);
        lemma_step_extract(events.last());
        let c = client_lines(events.drop_last());
        let r = room_lines(events.drop_last());
        match events.last() {
            SessionEvent::ClientLine(m) => {
                assert(c + seq![m] =~= c.push(m));
                assert(r + Seq::<String>::empty() =~= r);
            },
            SessionEvent::RoomLine(m) => {
                assert(r + seq![m] =~= r.push(m));
                assert(c + Seq::<String>::empty() =~= c);
            },
            _ => {
                assert(c + Seq::<String>::empty() =~= c);
                assert(r + Seq::<String>::empty() =~= r);
            },
        }
    }
}

/// In each step a client's line is logged before it is broadcast, and it is
/// already in the history when either happens.
pub proof fn lemma_recorded_before_sent(history: Seq<String>, msg: String)
    ensures
        session_transition(history, SessionEvent::ClientLine(msg)).1 == seq![
            SessionAction::Log(msg),
            SessionAction::Broadcast(msg),
        ],
        session_transition(history, SessionEvent::ClientLine(msg)).0.last() == msg,
{
}

/// The history only grows: after any run of session events it is the old
/// history followed by the lines the client sent, in the order sent.
pub proof fn lemma_history_grows_by_client_lines(history: Seq<String>, events: Seq<SessionEvent>)
    ensures
        history_after(history, events) == history + client_lines(events),
    decreases events.len(),
{
    if events.len() == 0 {
        assert(history + seq![] =~= history);
    } else {
        lemma_history_grows_by_client_lines(history, events.drop_last());
        let rest = client_lines(events.drop_last());
        match events.last() {
            SessionEvent::ClientLine(msg) => {
                assert((history + rest).push(msg) =~= history + rest.push(msg));
            },
            _ => {},
        }
    }
}

/// What the client's reader observed from the server.
#[derive(Clone, Debug, PartialEq, Eq)]
pub enum RelayEvent {
    /// A line arrived.
    Line(String),
    /// Reading failed.
    Failed,
    /// The server closed the connection.
    Ended,
}

pub open spec fn relay_outcome(event: RelayEvent) -> Option<String> {
    match event {
        RelayEvent::Line(line) => Some(line),
        _ => None,
    }
}

/// The client's reader passes each line on to the screen, and stops when
/// reading fails or the server is gone.
pub fn relay_decision(event: RelayEvent) -> (forward: Option<String>)
    ensures
        forward == relay_outcome(event),
{
    match event {
        RelayEvent::Line(line) => Some(line),
        _ => None,
    }
}

/// What the reader passes on over a run of reads: each forwarded line, up to
/// the first read that stops it.
pub open spec fn relayed(events: Seq<RelayEvent>) -> Seq<String>
    decreases events.len(),
{
    if events.len() == 0 {
        seq![]
    } else {
        match relay_outcome(events[0]) {
            Some(line) => seq![line] + relayed(events.drop_first()),
            None => seq![],
        }
    }
}

/// The lines among `events`, in order.
pub open spec fn received_lines(events: Seq<RelayEvent>) -> Seq<String>
    decreases events.len(),
{
    if events.len() == 0 {
        seq![]
    } else {
        match events[0] {
            RelayEvent::Line(line) => seq![line] + received_lines(events.drop_first()),
            _ => received_lines(events.drop_first()),
        }
    }
}

/// The reader passes on a prefix of the lines it received: the same lines,
/// unchanged, in the same order, none skipped or made up.
pub proof fn lemma_relay_forwards_prefix(events: Seq<RelayEvent>)
    ensures
        relayed(events).len() <= received_lines(events).len(),
        relayed(events) == received_lines(events).subrange(0, relayed(events).len() as int),
    decreases events.len(),
{
    if events.len() > 0 {
        lemma_relay_forwards_prefix(events.drop_first());
        match events[0] {
            RelayEvent::Line(line) => {
                let r = received_lines(events.drop_first());
                let f = relayed(events.drop_first());
                assert((seq![line] + r).subrange(0, f.len() as int + 1) =~= seq![line] + r.subrange(
                    0,
                    f.len() as int,
                ));
            },
            _ => {
                assert(received_lines(events).subrange(0, 0) =~= seq![]);
            },
        }
    } else {
        assert(received_lines(events).subrange(0, 0) =~= seq![]);
    }
}

/// What the client's writer found in its queue.
#[derive(Clone, Debug, PartialEq, Eq)]
pub enum QueueEvent {
    /// A line to send.
    Message(String),
    /// Nothing queued yet.
    Empty,
    /// Lines were dropped because the writer fell behind.
    Lagged,
    /// The interface side of the queue is gone.
    Closed,
}

pub open spec fn writer_outcome(event: QueueEvent) -> Option<String> {
    match event {
        QueueEvent::Message(line) => Some(line),
        _ => None,
    }
}

/// The client's writer sends each queued line to the server and passes over
/// everything else; it stops only when the interface says so.
pub fn writer_decision(event: QueueEvent) -> (send: Option<String>)
    ensures
        send == writer_outcome(event),
{
    match event {
        QueueEvent::Message(line) => Some(line),
        _ => None,
    }
}

/// What the writer sends over a run of looks at its queue, in order.
pub open spec fn written(events: Seq<QueueEvent>) -> Seq<String>
    decreases events.len(),
{
    if events.len() == 0 {
        seq![]
    } else {
        let rest = written(events.drop_last());
        match writer_outcome(events.last()) {
            Some(line) => rest.push(line),
            None => rest,
        }
    }
}

/// The messages taken from the queue over a run, in order.
pub open spec fn queued_messages(events: Seq<QueueEvent>) -> Seq<String>
    decreases events.len(),
{
    if events.len() == 0 {
        seq![]
    } else {
        let rest = queued_messages(events.drop_last());
        match events.last() {
            QueueEvent::Message(line) => rest.push(line),
            _ => rest,
        }
    }
}

/// The writer sends exactly the messages it took from its queue: each once,
/// unchanged, in the order taken, and nothing else.
pub proof fn lemma_writer_sends_queued(events: Seq<QueueEvent>)
    ensures
        written(events) == queued_messages(events),
    decreases events.len(),
{
    if events.len() > 0 {
        lemma_writer_sends_queued(events.drop_last());
    }
}


/// Every line from the server is passed on unchanged, whatever it holds;
/// over a run of reads that neither fail nor end, every line received is
/// passed on, in order.
pub proof fn lemma_relay_passes_every_line(line: String, events: Seq<RelayEvent>)
    ensures
        relay_outcome(RelayEvent::Line(line)) == Some(line),
        (forall|i: int| 0 <= i < events.len() ==> #[trigger] events[i] is Line) ==> relayed(
            events,
        ) == received_lines(events),
    decreases events.len(),
{
    if events.len() > 0 {
        lemma_relay_passes_every_line(line, events.drop_first());
        if forall|i: int| 0 <= i < events.len() ==> #[trigger] events[i] is Line {
            assert(events[0] is Line);
            assert forall|i: int| 0 <= i < events.drop_first().len() implies #[trigger] events.drop_first()[i] is Line by {
                assert(events.drop_first()[i] == events[i + 1]);
            }
        }
    }
}

/// Every queued message is sent unchanged, whatever it holds.
pub proof fn lemma_writer_sends_every_message(line: String)
    ensures
        writer_outcome(QueueEvent::Message(line)) == Some(line),
{
}

} // verus!

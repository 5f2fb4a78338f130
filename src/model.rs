//! The session as a mathematical state machine: what one step of reading
//! does in each direction, and where a run of steps ends.

use crate::command::{parse_command, CommandView};
use crate::error::ParseError;
use crate::line::{lemma_line_end, split_line, CR, DOT, LF};
use crate::reply::{parse_reply_line, reply_code, ReplyCode, ReplyLineView};
use crate::session::Mode;
use vstd::prelude::*;

verus! {

/// What a mail transaction holds.
pub struct TransactionView {
    /// The reverse path of the accepted `MAIL` command.
    pub from: Seq<u8>,
    /// The forward paths of the accepted `RCPT` commands, in order.
    pub to: Seq<Seq<u8>>,
    /// The mail body, every line with its terminator.
    pub body: Seq<u8>,
}

/// A transaction with nothing in it.
pub open spec fn empty_transaction() -> TransactionView {
    TransactionView { from: seq![], to: seq![], body: seq![] }
}

/// What waits for a reply from the server.
pub enum PendingView {
    /// The greeting.
    Connect,
    /// A command that the client sent.
    Command(CommandView),
    /// A mail body that the client finished.
    Commit(TransactionView),
}

/// What a session holds.
pub struct SessionView {
    /// Bytes from the client not yet read.
    pub downstream: Seq<u8>,
    /// Bytes from the server not yet read.
    pub upstream: Seq<u8>,
    pub mode: Mode,
    /// The lines read so far of a reply that is not complete yet.
    pub next_reply: Option<Seq<ReplyLineView>>,
    /// The lines read so far of a mail body that is not complete yet.
    pub next_body: Seq<u8>,
    /// What waits for a reply, oldest first.
    pub pending: Seq<PendingView>,
    /// The mail transaction in progress.
    pub transaction: Option<TransactionView>,
    /// Every call made to the sink so far, oldest first, whether it
    /// succeeded or not.
    pub events: Seq<SinkEvent>,
}

/// A call to the sink.
pub enum SinkEvent {
    /// `on_smtp_connect`
    Connect,
    /// `on_smtp_connect_reply`
    ConnectReply(ReplyCode),
    /// `on_smtp_command`, with the command's verb.
    Command(Seq<char>),
    /// `on_smtp_command_reply`, with the command's verb.
    CommandReply(Seq<char>, ReplyCode),
    /// `on_smtp_transaction_commit`
    Commit,
    /// `on_smtp_transaction_commit_reply`
    CommitReply(ReplyCode),
    /// `on_smtp_parse_error`
    ParseError,
}

/// The state with the sink call `e` recorded.
pub open spec fn notify(s: SessionView, e: SinkEvent) -> SessionView {
    SessionView { events: s.events.push(e), ..s }
}

/// One step of reading: the sink call it makes, if any; the state right
/// after that call is made (`mid`), which is where the step stops if the
/// call fails; and the state after the step.
pub struct Step {
    pub event: Option<SinkEvent>,
    pub mid: SessionView,
    pub after: SessionView,
}

/// A step that changes the state without calling the sink.
pub open spec fn quiet_step(s: SessionView) -> Step {
    Step { event: None, mid: s, after: s }
}

/// A step that calls the sink with `e` and then, if the call succeeds,
/// goes on to `after`.
pub open spec fn notify_step(mid: SessionView, e: SinkEvent, after: SessionView) -> Step {
    Step { event: Some(e), mid: notify(mid, e), after: notify(after, e) }
}

/// A parse error: the session stops interpreting traffic for good, and the
/// sink is told, whether or not that call succeeds.
pub open spec fn fallback_step(s: SessionView) -> Step {
    let p = SessionView { mode: Mode::PassThrough, ..s };
    notify_step(p, SinkEvent::ParseError, p)
}

/// The state with `bytes` from the client appended, unless the session no
/// longer interprets traffic, in which case the bytes are dropped.
pub open spec fn feed_down(s: SessionView, bytes: Seq<u8>) -> SessionView {
    if s.mode == Mode::PassThrough {
        s
    } else {
        SessionView { downstream: s.downstream + bytes, ..s }
    }
}

/// The state with `bytes` from the server appended, under the same rule.
pub open spec fn feed_up(s: SessionView, bytes: Seq<u8>) -> SessionView {
    if s.mode == Mode::PassThrough {
        s
    } else {
        SessionView { upstream: s.upstream + bytes, ..s }
    }
}

/// The mail transaction in progress, or an empty one.
pub open spec fn transaction_or_empty(s: SessionView) -> TransactionView {
    match s.transaction {
        Some(t) => t,
        None => empty_transaction(),
    }
}

/// The line that ends a mail body.
pub open spec fn body_end() -> Seq<u8> {
    seq![DOT]
}

/// One step of reading what the client sent: one complete line, read as a
/// command or as a line of the mail body, according to the mode.
pub open spec fn down_step(s: SessionView) -> Option<Step> {
    if s.mode == Mode::PassThrough {
        None
    } else {
        match split_line(s.downstream) {
            None => None,
            Some((line, rest)) => {
                let s1 = SessionView { downstream: rest, ..s };
                if s.mode == Mode::Data {
                    let body = s.next_body + line + seq![CR, LF];
                    if s.next_body.len() > 0 && line == body_end() {
                        let tx = TransactionView { body, ..transaction_or_empty(s) };
                        let mid = SessionView {
                            next_body: seq![],
                            transaction: None,
                            pending: s.pending.push(PendingView::Commit(tx)),
                            ..s1
                        };
                        Some(
                            notify_step(
                                mid,
                                SinkEvent::Commit,
                                SessionView { mode: Mode::Command, ..mid },
                            ),
                        )
                    } else {
                        Some(quiet_step(SessionView { next_body: body, ..s1 }))
                    }
                } else {
                    match parse_command(line) {
                        Ok(cmd) => Some(
                            notify_step(
                                s1,
                                SinkEvent::Command(cmd.verb()),
                                SessionView {
                                    pending: s1.pending.push(PendingView::Command(cmd)),
                                    ..s1
                                },
                            ),
                        ),
                        Err(_) => Some(fallback_step(s1)),
                    }
                }
            },
        }
    }
}

/// What a positive reply to `cmd` does.
pub open spec fn command_effect(s: SessionView, cmd: CommandView) -> SessionView {
    match cmd {
        CommandView::Helo { .. } | CommandView::Ehlo { .. } | CommandView::Rset => SessionView {
            transaction: None,
            ..s
        },
        CommandView::Mail { from } => SessionView {
            transaction: Some(TransactionView { from, ..transaction_or_empty(s) }),
            ..s
        },
        CommandView::Rcpt { to } => SessionView {
            transaction: Some(
                TransactionView {
                    to: transaction_or_empty(s).to.push(to),
                    ..transaction_or_empty(s)
                },
            ),
            ..s
        },
        CommandView::Data => SessionView {
            transaction: Some(TransactionView { body: seq![], ..transaction_or_empty(s) }),
            mode: Mode::Data,
            ..s
        },
        CommandView::StartTls | CommandView::Unknown { .. } => SessionView {
            mode: Mode::PassThrough,
            ..s
        },
        _ => s,
    }
}

/// What a reply with `code` does to what was waiting for it. Only a
/// positive reply has an effect.
pub open spec fn reply_effect(s: SessionView, pending: PendingView, code: ReplyCode) -> SessionView {
    if !code.x.spec_is_positive() {
        s
    } else {
        match pending {
            PendingView::Connect => SessionView { mode: Mode::Command, ..s },
            PendingView::Command(cmd) => command_effect(s, cmd),
            PendingView::Commit(_) => s,
        }
    }
}

/// The sink call that reports a reply with `code` to `pending`.
pub open spec fn reply_event(pending: PendingView, code: ReplyCode) -> SinkEvent {
    match pending {
        PendingView::Connect => SinkEvent::ConnectReply(code),
        PendingView::Command(cmd) => SinkEvent::CommandReply(cmd.verb(), code),
        PendingView::Commit(_) => SinkEvent::CommitReply(code),
    }
}

/// What a complete reply answers: the oldest pending entry. A reply while
/// nothing is pending means that the two directions are out of step.
pub open spec fn oldest_pending(pending: Seq<PendingView>) -> Result<PendingView, ParseError> {
    if pending.len() == 0 {
        Err(ParseError::UnexpectedReply)
    } else {
        Ok(pending[0])
    }
}

/// The step of a complete reply made of `lines`: it answers the oldest
/// pending entry, and with nothing pending it is a parse error.
pub open spec fn reply_step(s: SessionView, lines: Seq<ReplyLineView>) -> Step {
    match oldest_pending(s.pending) {
        Err(_) => fallback_step(s),
        Ok(p) => {
            let code = reply_code(lines);
            let mid = notify(SessionView { pending: s.pending.drop_first(), ..s }, reply_event(p, code));
            Step { event: Some(reply_event(p, code)), mid, after: reply_effect(mid, p, code) }
        },
    }
}

/// The lines of a reply in progress, with `l` added at the end.
pub open spec fn extend_reply(next_reply: Option<Seq<ReplyLineView>>, l: ReplyLineView) -> Seq<ReplyLineView> {
    match next_reply {
        Some(ls) => ls.push(l),
        None => seq![l],
    }
}

/// One step of reading what the server sent: one complete reply line.
pub open spec fn up_step(s: SessionView) -> Option<Step> {
    if s.mode == Mode::PassThrough {
        None
    } else {
        match split_line(s.upstream) {
            None => None,
            Some((line, rest)) => {
                let s1 = SessionView { upstream: rest, ..s };
                match parse_reply_line(line) {
                    Err(_) => Some(fallback_step(s1)),
                    Ok(l) => {
                        let lines = extend_reply(s.next_reply, l);
                        if l.last {
                            Some(reply_step(SessionView { next_reply: None, ..s1 }, lines))
                        } else {
                            Some(quiet_step(SessionView { next_reply: Some(lines), ..s1 }))
                        }
                    },
                }
            },
        }
    }
}

/// The state after `n` steps of `step`, or after fewer where no step is left.
pub open spec fn run(step: spec_fn(SessionView) -> Option<Step>, s: SessionView, n: nat) -> SessionView
    decreases n,
{
    if n == 0 {
        s
    } else {
        match step(s) {
            Some(st) => run(step, st.after, (n - 1) as nat),
            None => s,
        }
    }
}

pub open spec fn down_steps() -> spec_fn(SessionView) -> Option<Step> {
    |s: SessionView| down_step(s)
}

pub open spec fn up_steps() -> spec_fn(SessionView) -> Option<Step> {
    |s: SessionView| up_step(s)
}

/// Everything the client sent that can be read now has been read: each
/// step takes at least one line terminator, so there are no more steps than
/// bytes.
pub open spec fn drain_down(s: SessionView) -> SessionView {
    run(down_steps(), s, s.downstream.len())
}

/// Everything the server sent that can be read now has been read.
pub open spec fn drain_up(s: SessionView) -> SessionView {
    run(up_steps(), s, s.upstream.len())
}


/// One more step extends a run by the next step.
pub proof fn lemma_run_next(step: spec_fn(SessionView) -> Option<Step>, s: SessionView, n: nat)
    ensures
        run(step, s, n + 1) == match step(run(step, s, n)) {
            Some(st) => st.after,
            None => run(step, s, n),
        },
    decreases n,
{
    if let Some(st) = step(s) {
        if n > 0 {
            lemma_run_next(step, st.after, (n - 1) as nat);
            assert((n + 1 - 1) as nat == ((n - 1) as nat) + 1);
        } else {
            assert(run(step, st.after, 0) == st.after);
        }
    }
}

/// Once no step is left, further steps change nothing.
pub proof fn lemma_run_stable(step: spec_fn(SessionView) -> Option<Step>, s: SessionView, n: nat, m: nat)
    requires
        step(run(step, s, n)) is None,
        n <= m,
    ensures
        run(step, s, m) == run(step, s, n),
    decreases m - n,
{
    if n < m {
        lemma_run_next(step, s, n);
        lemma_run_stable(step, s, n + 1, m);
    }
}

/// A step on what the client sent takes at least a line terminator.
pub proof fn lemma_down_step_shrinks(s: SessionView)
    requires
        down_step(s) is Some,
    ensures
        down_step(s)->0.mid.downstream.len() + 2 <= s.downstream.len(),
        down_step(s)->0.after.downstream == down_step(s)->0.mid.downstream,
{
    lemma_line_end(s.downstream);
}

/// A step on what the server sent takes at least a line terminator.
pub proof fn lemma_up_step_shrinks(s: SessionView)
    requires
        up_step(s) is Some,
    ensures
        up_step(s)->0.mid.upstream.len() + 2 <= s.upstream.len(),
        up_step(s)->0.after.upstream == up_step(s)->0.mid.upstream,
{
    lemma_line_end(s.upstream);
}

/// A run on what the client sent that has no step left is the drain.
pub proof fn lemma_drain_down_at(s: SessionView, n: nat)
    requires
        down_step(run(down_steps(), s, n)) is None,
        n <= s.downstream.len(),
    ensures
        drain_down(s) == run(down_steps(), s, n),
{
    lemma_run_stable(down_steps(), s, n, s.downstream.len());
}

/// A run on what the server sent that has no step left is the drain.
pub proof fn lemma_drain_up_at(s: SessionView, n: nat)
    requires
        up_step(run(up_steps(), s, n)) is None,
        n <= s.upstream.len(),
    ensures
        drain_up(s) == run(up_steps(), s, n),
{
    lemma_run_stable(up_steps(), s, n, s.upstream.len());
}


/// `t` is the state in which a run of `step` from `s` stopped because the
/// sink failed: the state right after some step's sink call.
pub open spec fn interrupted(step: spec_fn(SessionView) -> Option<Step>, s: SessionView, t: SessionView) -> bool {
    exists|n: nat|
        #![trigger run(step, s, n)]
        step(run(step, s, n)) matches Some(st) && st.event is Some && st.mid == t
}

} // verus!

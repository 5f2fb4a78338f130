//! The SMTP session: both directions of one connection, the replies that
//! are waited for, and the mail transaction in progress.

use crate::command::{lemma_command_view, parse_command, Command};
use crate::error::ParseError;
use crate::line::{line_end, next_line, split_line, CR, DOT, LF};
use crate::model::{
    body_end, command_effect, down_step, down_steps, drain_down, drain_up, empty_transaction,
    extend_reply, fallback_step, notify, reply_event, SinkEvent, feed_down, feed_up, interrupted, lemma_down_step_shrinks,
    lemma_drain_down_at, lemma_drain_up_at, lemma_run_next, lemma_up_step_shrinks, oldest_pending,
    reply_effect, run, transaction_or_empty, up_step, up_steps, PendingView, SessionView,
    TransactionView,
};
use crate::reply::{parse_reply_line, reply_code, Reply, ReplyCode, ReplyLine};
use crate::stats::StatsSink;
use envoy_sdk::extension::Error;
use std::collections::VecDeque;
use vstd::prelude::*;

verus! {

/// What the session expects to read next.
#[derive(Clone, Copy, Debug, PartialEq, Eq, Hash, Structural)]
pub enum Mode {
    /// The client waits for the server's greeting.
    Connect,
    /// The client sends commands.
    Command,
    /// The client sends a mail body.
    Data,
    /// Traffic is no longer interpreted, after a parse error or after the
    /// switch to TLS; the session never leaves this mode.
    PassThrough,
}

impl Default for Mode {
    /// A new session waits for the greeting.
    fn default() -> (r: Mode)
        ensures
            r == Mode::Connect,
    {
        Mode::Connect
    }
}


/// One mail transaction: sender, recipients and body.
#[derive(Debug)]
pub struct Transaction {
    from: Vec<u8>,
    to: Vec<Vec<u8>>,
    body: Vec<u8>,
}

impl View for Transaction {
    type V = TransactionView;

    closed spec fn view(&self) -> TransactionView {
        TransactionView {
            from: self.from@,
            to: self.to@.map_values(|v: Vec<u8>| v@),
            body: self.body@,
        }
    }
}

impl Transaction {
    /// A transaction with no sender, no recipients and no body.
    pub fn new() -> (r: Transaction)
        ensures
            r@ == empty_transaction(),
    {
        let r = Transaction { from: Vec::new(), to: Vec::new(), body: Vec::new() };
        proof {
            assert(r@.to =~= Seq::<Seq<u8>>::empty());
        }
        r
    }

    /// The reverse path of the accepted `MAIL` command.
    pub fn from(&self) -> (r: &Vec<u8>)
        ensures
            r@ == self@.from,
    {
        &self.from
    }

    /// The forward paths of the accepted `RCPT` commands, in order.
    pub fn to(&self) -> (r: &Vec<Vec<u8>>)
        ensures
            r@.map_values(|v: Vec<u8>| v@) == self@.to,
    {
        &self.to
    }

    /// The mail body, every line with its terminator.
    pub fn body(&self) -> (r: &Vec<u8>)
        ensures
            r@ == self@.body,
    {
        &self.body
    }
}

/// What waits for a reply from the server.
#[derive(Debug)]
pub enum PendingReply {
    /// The greeting.
    Connect,
    /// A command that the client sent.
    Command(Command),
    /// A mail body that the client finished.
    Commit(Transaction),
}

impl View for PendingReply {
    type V = PendingView;

    open spec fn view(&self) -> PendingView {
        match self {
            PendingReply::Connect => PendingView::Connect,
            PendingReply::Command(c) => PendingView::Command(c@),
            PendingReply::Commit(t) => PendingView::Commit(t@),
        }
    }
}

/// A call to make to the sink.
enum Report<'a> {
    Connect,
    ConnectReply(ReplyCode),
    Command(&'a str),
    CommandReply(&'a str, ReplyCode),
    Commit,
    CommitReply(ReplyCode),
    ParseError,
}

impl<'a> Report<'a> {
    /// The event that the call records.
    spec fn event(self) -> SinkEvent {
        match self {
            Report::Connect => SinkEvent::Connect,
            Report::ConnectReply(code) => SinkEvent::ConnectReply(code),
            Report::Command(verb) => SinkEvent::Command(verb@),
            Report::CommandReply(verb, code) => SinkEvent::CommandReply(verb@, code),
            Report::Commit => SinkEvent::Commit,
            Report::CommitReply(code) => SinkEvent::CommitReply(code),
            Report::ParseError => SinkEvent::ParseError,
        }
    }
}

/// One SMTP session, observed from both directions.
pub struct Session<S: StatsSink> {
    downstream_buffer: Vec<u8>,
    upstream_buffer: Vec<u8>,
    mode: Mode,
    next_reply: Option<Reply>,
    next_body: Vec<u8>,
    pending_replies: VecDeque<PendingReply>,
    active_transaction: Option<Transaction>,
    stats_sink: S,
    events: Ghost<Seq<SinkEvent>>,
}

/// The state of a new session.
pub open spec fn initial_session() -> SessionView {
    SessionView {
        downstream: seq![],
        upstream: seq![],
        mode: Mode::Connect,
        next_reply: None,
        next_body: seq![],
        pending: seq![],
        transaction: None,
        events: seq![],
    }
}

impl<S: StatsSink> View for Session<S> {
    type V = SessionView;

    closed spec fn view(&self) -> SessionView {
        SessionView {
            downstream: self.downstream_buffer@,
            upstream: self.upstream_buffer@,
            mode: self.mode,
            next_reply: match self.next_reply {
                Some(r) => Some(r@),
                None => None,
            },
            next_body: self.next_body@,
            pending: self.pending_replies@.map_values(|p: PendingReply| p@),
            transaction: match self.active_transaction {
                Some(t) => Some(t@),
                None => None,
            },
            events: self.events@,
        }
    }
}

impl<S: StatsSink> Session<S> {
    /// A session that reports to `stats_sink` and waits for the greeting.
    pub fn new(stats_sink: S) -> (r: Session<S>)
        ensures
            r@ == initial_session(),
    {
        let r = Session {
            downstream_buffer: Vec::new(),
            upstream_buffer: Vec::new(),
            mode: Mode::Connect,
            next_reply: None,
            next_body: Vec::new(),
            pending_replies: VecDeque::new(),
            active_transaction: None,
            stats_sink,
            events: Ghost(Seq::empty()),
        };
        proof {
            assert(r@.pending =~= Seq::<PendingView>::empty());
            assert(r@ == initial_session());
        }
        r
    }

    pub fn mode(&self) -> (r: Mode)
        ensures
            r == self@.mode,
    {
        self.mode
    }

    /// The mail transaction in progress.
    pub fn transaction(&self) -> (r: Option<&Transaction>)
        ensures
            match r {
                Some(t) => self@.transaction == Some(t@),
                None => self@.transaction is None,
            },
    {
        match &self.active_transaction {
            Some(t) => Some(t),
            None => None,
        }
    }

    /// The greetings, commands and mail bodies that wait for a reply,
    /// oldest first.
    pub fn pending_replies(&self) -> (r: &VecDeque<PendingReply>)
        ensures
            r@.map_values(|p: PendingReply| p@) == self@.pending,
    {
        &self.pending_replies
    }

    /// How many greetings, commands and mail bodies wait for a reply.
    pub fn pending_len(&self) -> (r: usize)
        ensures
            r == self@.pending.len(),
    {
        self.pending_replies.len()
    }

    /// Starts a connection: the sink is told, then the greeting is waited for.
    pub fn on_new_conection(&mut self) -> (r: Result<(), Error>)
        ensures
            r is Ok ==> final(self)@ == (SessionView {
                pending: old(self)@.pending.push(PendingView::Connect),
                ..notify(old(self)@, SinkEvent::Connect)
            }),
            r is Err ==> final(self)@ == notify(old(self)@, SinkEvent::Connect),
    {
        match self.report(Report::Connect) {
            Ok(()) => {},
            Err(e) => return Err(e),
        }
        self.push_pending(PendingReply::Connect);
        Ok(())
    }

    /// Makes the sink call `report` and records it, whatever it returns.
    fn report(&mut self, report: Report) -> (r: Result<(), Error>)
        ensures
            final(self)@ == notify(old(self)@, report.event()),
    {
        self.events = Ghost(self.events@.push(report.event()));
        match report {
            Report::Connect => self.stats_sink.on_smtp_connect(),
            Report::ConnectReply(code) => self.stats_sink.on_smtp_connect_reply(code),
            Report::Command(verb) => self.stats_sink.on_smtp_command(verb),
            Report::CommandReply(verb, code) => self.stats_sink.on_smtp_command_reply(verb, code),
            Report::Commit => self.stats_sink.on_smtp_transaction_commit(),
            Report::CommitReply(code) => self.stats_sink.on_smtp_transaction_commit_reply(code),
            Report::ParseError => self.stats_sink.on_smtp_parse_error(),
        }
    }

    fn push_pending(&mut self, p: PendingReply)
        ensures
            final(self)@ == (SessionView { pending: old(self)@.pending.push(p@), ..old(self)@ }),
    {
        self.pending_replies.push_back(p);
        proof {
            assert(self@.pending =~= old(self)@.pending.push(p@));
        }
    }

    fn reset(&mut self)
        ensures
            final(self)@ == (SessionView { transaction: None, ..old(self)@ }),
    {
        self.active_transaction = None;
    }

    /// Takes the transaction in progress out of the session, or makes an
    /// empty one where there is none.
    fn take_or_create_transaction(&mut self) -> (r: Transaction)
        ensures
            r@ == transaction_or_empty(old(self)@),
            final(self)@ == (SessionView { transaction: None, ..old(self)@ }),
    {
        match self.active_transaction.take() {
            Some(t) => t,
            None => Transaction::new(),
        }
    }

    /// Gives up interpreting traffic for good after a parse error, and tells
    /// the sink; the interpretation stops whatever the sink returns.
    fn fallback(&mut self) -> (r: Result<(), Error>)
        ensures
            final(self)@ == fallback_step(old(self)@).mid,
            final(self)@ == fallback_step(old(self)@).after,
    {
        self.mode = Mode::PassThrough;
        self.report(Report::ParseError)
    }

    /// Reads the next complete line from the client as a command.
    fn next_command(&mut self) -> (r: Result<Option<Command>, ParseError>)
        ensures
            match split_line(old(self)@.downstream) {
                None => r == Ok::<Option<Command>, ParseError>(None) && final(self)@ == old(self)@,
                Some((line, rest)) => final(self)@ == (SessionView {
                    downstream: rest,
                    ..old(self)@
                }) && match parse_command(line) {
                    Ok(v) => r matches Ok(Some(c)) && c@ == v,
                    Err(e) => r == Err::<Option<Command>, ParseError>(e),
                },
            },
    {
        match next_line(&mut self.downstream_buffer) {
            Some(line) => match Command::parse(line) {
                Ok(c) => Ok(Some(c)),
                Err(e) => Err(e),
            },
            None => Ok(None),
        }
    }

    /// Reads the next complete line from the client as a line of the mail
    /// body: `None` where there is no complete line, `Some(None)` where the
    /// body goes on, and the whole body where the line ends it.
    fn next_body(&mut self) -> (r: Option<Option<Vec<u8>>>)
        ensures
            match split_line(old(self)@.downstream) {
                None => r is None && final(self)@ == old(self)@,
                Some((line, rest)) => {
                    let body = old(self)@.next_body + line + seq![CR, LF];
                    if old(self)@.next_body.len() > 0 && line == body_end() {
                        r matches Some(Some(b)) && b@ == body && final(self)@ == (SessionView {
                            downstream: rest,
                            next_body: seq![],
                            ..old(self)@
                        })
                    } else {
                        r matches Some(None) && final(self)@ == (SessionView {
                            downstream: rest,
                            next_body: body,
                            ..old(self)@
                        })
                    }
                },
            },
    {
        match next_line(&mut self.downstream_buffer) {
            Some(line) => {
                let end = self.next_body.len() > 0 && line.len() == 1 && line[0] == DOT;
                proof {
                    if line@ == body_end() {
                        assert(line@[0] == DOT);
                    }
                    if line@.len() == 1 && line@[0] == DOT {
                        assert(line@ =~= body_end());
                    }
                }
                let ghost before = self.next_body@;
                let mut line = line;
                self.next_body.append(&mut line);
                self.next_body.push(CR);
                self.next_body.push(LF);
                proof {
                    assert(self.next_body@ =~= before + old(self)@.downstream.take(
                        line_end(old(self)@.downstream)->0 as int,
                    ) + seq![CR, LF]);
                }
                if end {
                    let mut body: Vec<u8> = Vec::new();
                    std::mem::swap(&mut body, &mut self.next_body);
                    Some(Some(body))
                } else {
                    Some(None)
                }
            },
            None => None,
        }
    }

    /// Takes bytes that the client sent and reads every complete command,
    /// or line of the mail body, that is now available. Once traffic is no
    /// longer interpreted the bytes are dropped. A failing sink call ends
    /// the reading at once, with the sink's error.
    pub fn on_downstream_data(&mut self, new_data: Vec<u8>) -> (r: Result<(), Error>)
        ensures
            old(self)@.mode == Mode::PassThrough ==> r is Ok && final(self)@ == old(self)@,
            r is Ok ==> final(self)@ == drain_down(feed_down(old(self)@, new_data@)),
            r is Err ==> interrupted(down_steps(), feed_down(old(self)@, new_data@), final(self)@),
    {
        if self.mode == Mode::PassThrough {
            return Ok(());
        }
        let mut data = new_data;
        self.downstream_buffer.append(&mut data);
        let ghost s0 = self@;
        proof {
            assert(s0 == feed_down(old(self)@, new_data@));
        }
        let ghost mut n: nat = 0;
        loop
            invariant
                s0 == feed_down(old(self)@, new_data@),
                self@ == run(down_steps(), s0, n),
                self@.downstream.len() + 2 * n <= s0.downstream.len(),
            decreases self@.downstream.len(),
        {
            let ghost cur = self@;
            proof {
                lemma_run_next(down_steps(), s0, n);
            }
            match self.mode {
                Mode::PassThrough => {
                    proof {
                        lemma_drain_down_at(s0, n);
                    }
                    return Ok(());
                },
                Mode::Data => match self.next_body() {
                    None => {
                        proof {
                            lemma_drain_down_at(s0, n);
                        }
                        return Ok(());
                    },
                    Some(None) => {
                        proof {
                            lemma_down_step_shrinks(cur);
                            n = n + 1;
                        }
                    },
                    Some(Some(body)) => {
                        let mut tx = self.take_or_create_transaction();
                        tx.body = body;
                        self.push_pending(PendingReply::Commit(tx));
                        match self.report(Report::Commit) {
                            Ok(()) => {},
                            Err(e) => {
                                proof {
                                    assert(down_step(run(down_steps(), s0, n))->0.mid == self@);
                                }
                                return Err(e);
                            },
                        }
                        self.mode = Mode::Command;
                        proof {
                            lemma_down_step_shrinks(cur);
                            n = n + 1;
                        }
                    },
                },
                _ => match self.next_command() {
                    Ok(Some(cmd)) => {
                        match self.report(Report::Command(cmd.verb())) {
                            Ok(()) => {},
                            Err(e) => {
                                proof {
                                    assert(down_step(run(down_steps(), s0, n))->0.mid == self@);
                                }
                                return Err(e);
                            },
                        }
                        self.push_pending(PendingReply::Command(cmd));
                        proof {
                            lemma_down_step_shrinks(cur);
                            n = n + 1;
                        }
                    },
                    Ok(None) => {
                        proof {
                            lemma_drain_down_at(s0, n);
                        }
                        return Ok(());
                    },
                    Err(_) => {
                        match self.fallback() {
                            Ok(()) => {},
                            Err(e) => {
                                proof {
                                    assert(down_step(run(down_steps(), s0, n))->0.mid == self@);
                                }
                                return Err(e);
                            },
                        }
                        proof {
                            lemma_down_step_shrinks(cur);
                            n = n + 1;
                        }
                    },
                },
            }
        }
    }

    /// Takes the oldest pending entry, which a complete reply answers.
    fn pop_pending(&mut self) -> (r: Result<PendingReply, ParseError>)
        ensures
            match oldest_pending(old(self)@.pending) {
                Ok(p) => r matches Ok(q) && q@ == p && final(self)@ == (SessionView {
                    pending: old(self)@.pending.drop_first(),
                    ..old(self)@
                }),
                Err(e) => r == Err::<PendingReply, ParseError>(e) && final(self)@ == old(self)@,
            },
    {
        let r = self.pending_replies.pop_front();
        proof {
            if r is Some {
                assert(self@.pending =~= old(self)@.pending.skip(1));
            }
        }
        match r {
            Some(p) => Ok(p),
            None => Err(ParseError::UnexpectedReply),
        }
    }

    /// Reads the next complete line from the server as a reply line:
    /// `None` where there is no complete line, `Some(None)` where the reply
    /// goes on, and the whole reply where the line ends it.
    fn next_reply(&mut self) -> (r: Result<Option<Option<Reply>>, ParseError>)
        ensures
            match split_line(old(self)@.upstream) {
                None => r is Ok && r->Ok_0 is None && final(self)@ == old(self)@,
                Some((line, rest)) => match parse_reply_line(line) {
                    Err(e) => r == Err::<Option<Option<Reply>>, ParseError>(e) && final(self)@ == (
                    SessionView { upstream: rest, ..old(self)@ }),
                    Ok(l) => {
                        let lines = extend_reply(old(self)@.next_reply, l);
                        if l.last {
                            r matches Ok(Some(Some(reply))) && reply@ == lines && final(self)@ == (
                            SessionView { upstream: rest, next_reply: None, ..old(self)@ })
                        } else {
                            r matches Ok(Some(None)) && final(self)@ == (SessionView {
                                upstream: rest,
                                next_reply: Some(lines),
                                ..old(self)@
                            })
                        }
                    },
                },
            },
    {
        let next = match next_line(&mut self.upstream_buffer) {
            Some(next) => next,
            None => return Ok(None),
        };
        let line = match ReplyLine::parse(next) {
            Ok(line) => line,
            Err(e) => return Err(e),
        };
        let end_line = line.is_end_line();
        let reply = match self.next_reply.take() {
            Some(mut reply) => {
                reply.append(line);
                reply
            },
            None => Reply::new(line),
        };
        if end_line {
            Ok(Some(Some(reply)))
        } else {
            self.next_reply = Some(reply);
            Ok(Some(None))
        }
    }

    /// Applies a positive reply to `cmd`.
    fn handle_command_reply(&mut self, cmd: Command)
        ensures
            final(self)@ == command_effect(old(self)@, cmd@),
    {
        proof {
            lemma_command_view(cmd);
        }
        match cmd {
            Command::Helo(_) | Command::Ehlo(_) | Command::Rset(_) => self.reset(),
            Command::Mail(mail) => {
                let given = mail.from();
                let from = given.clone();
                let mut tx = self.take_or_create_transaction();
                proof {
                    assert(from@ =~= given@);
                }
                tx.from = from;
                self.active_transaction = Some(tx);
            },
            Command::Rcpt(rcpt) => {
                let given = rcpt.to();
                let to = given.clone();
                let mut tx = self.take_or_create_transaction();
                let ghost before = tx@;
                proof {
                    assert(to@ =~= given@);
                }
                tx.to.push(to);
                proof {
                    assert(tx@.to =~= before.to.push(given@));
                }
                self.active_transaction = Some(tx);
            },
            Command::Data(_) => {
                let mut tx = self.take_or_create_transaction();
                tx.body = Vec::new();
                self.active_transaction = Some(tx);
                self.mode = Mode::Data;
            },
            Command::StartTls(_) | Command::Unknown(_) => {
                self.mode = Mode::PassThrough;
            },
            Command::Vrfy(_) | Command::Expn(_) | Command::Help(_) | Command::Noop(_)
            | Command::Quit(_) => {},
        }
    }

    /// Tells the sink of a complete reply to `pending`, then applies it.
    fn handle_reply(&mut self, pending: PendingReply, reply: Reply) -> (r: Result<(), Error>)
        ensures
            r is Ok ==> final(self)@ == reply_effect(
                notify(old(self)@, reply_event(pending@, reply_code(reply@))),
                pending@,
                reply_code(reply@),
            ),
            r is Err ==> final(self)@ == notify(old(self)@, reply_event(pending@, reply_code(reply@))),
    {
        let code = reply.code();
        match pending {
            PendingReply::Connect => {
                match self.report(Report::ConnectReply(code)) {
                    Ok(()) => {},
                    Err(e) => return Err(e),
                }
                if code.response_type().is_positive() {
                    self.mode = Mode::Command;
                }
            },
            PendingReply::Command(cmd) => {
                match self.report(Report::CommandReply(cmd.verb(), code)) {
                    Ok(()) => {},
                    Err(e) => return Err(e),
                }
                if code.response_type().is_positive() {
                    self.handle_command_reply(cmd);
                }
            },
            PendingReply::Commit(_) => {
                match self.report(Report::CommitReply(code)) {
                    Ok(()) => {},
                    Err(e) => return Err(e),
                }
            },
        }
        Ok(())
    }

    /// Takes bytes that the server sent and reads every complete reply that
    /// is now available; each answers the oldest pending greeting, command
    /// or mail body. Once traffic is no longer interpreted the bytes are
    /// dropped. A failing sink call ends the reading at once, with the
    /// sink's error.
    pub fn on_upstream_data(&mut self, new_data: Vec<u8>) -> (r: Result<(), Error>)
        ensures
            old(self)@.mode == Mode::PassThrough ==> r is Ok && final(self)@ == old(self)@,
            r is Ok ==> final(self)@ == drain_up(feed_up(old(self)@, new_data@)),
            r is Err ==> interrupted(up_steps(), feed_up(old(self)@, new_data@), final(self)@),
    {
        if self.mode == Mode::PassThrough {
            return Ok(());
        }
        let mut data = new_data;
        self.upstream_buffer.append(&mut data);
        let ghost s0 = self@;
        proof {
            assert(s0 == feed_up(old(self)@, new_data@));
        }
        let ghost mut n: nat = 0;
        loop
            invariant
                s0 == feed_up(old(self)@, new_data@),
                self@ == run(up_steps(), s0, n),
                self@.upstream.len() + 2 * n <= s0.upstream.len(),
            decreases self@.upstream.len(),
        {
            let ghost cur = self@;
            proof {
                lemma_run_next(up_steps(), s0, n);
            }
            if self.mode == Mode::PassThrough {
                proof {
                    lemma_drain_up_at(s0, n);
                }
                return Ok(());
            }
            match self.next_reply() {
                Ok(None) => {
                    proof {
                        lemma_drain_up_at(s0, n);
                    }
                    return Ok(());
                },
                Ok(Some(None)) => {},
                Ok(Some(Some(reply))) => match self.pop_pending() {
                    Ok(pending) => match self.handle_reply(pending, reply) {
                        Ok(()) => {},
                        Err(e) => {
                            proof {
                                assert(up_step(run(up_steps(), s0, n))->0.mid == self@);
                            }
                            return Err(e);
                        },
                    },
                    Err(_) => match self.fallback() {
                        Ok(()) => {},
                        Err(e) => {
                            proof {
                                assert(up_step(run(up_steps(), s0, n))->0.mid == self@);
                            }
                            return Err(e);
                        },
                    },
                },
                Err(_) => match self.fallback() {
                    Ok(()) => {},
                    Err(e) => {
                        proof {
                            assert(up_step(run(up_steps(), s0, n))->0.mid == self@);
                        }
                        return Err(e);
                    },
                },
            }
            proof {
                lemma_up_step_shrinks(cur);
                n = n + 1;
            }
        }
    }
}

} // verus!

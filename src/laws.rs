//! Properties of the session that hold for all inputs, proved over the
//! model that the session's operations are specified by.

use crate::command::parse_command;
use crate::error::ParseError;
use crate::line::{crlf_at, lemma_line_end, lemma_line_end_prefix, line_end, split_line, CR, LF};
use crate::model::{
    down_step, down_steps, drain_down, drain_up, extend_reply, fallback_step, feed_down, feed_up,
    lemma_down_step_shrinks, lemma_run_next, lemma_run_stable, lemma_up_step_shrinks,
    oldest_pending, reply_effect, reply_event, reply_step, SinkEvent, run, up_step, up_steps, PendingView, SessionView,
    Step,
};
use crate::reply::{parse_reply_line, reply_code, ReplyLineView};
use crate::session::Mode;
use vstd::prelude::*;

verus! {

/// `line` holds no line terminator.
pub open spec fn no_terminator(line: Seq<u8>) -> bool {
    forall|i: int| !crlf_at(line, i)
}

/// A line without a terminator, then a terminator, then anything, splits
/// into that line and that rest.
proof fn lemma_split_complete_line(line: Seq<u8>, rest: Seq<u8>)
    requires
        no_terminator(line),
    ensures
        split_line(line + seq![CR, LF] + rest) == Some((line, rest)),
{
    let w = line + seq![CR, LF] + rest;
    let l = line.len() as int;
    lemma_line_end(w);
    assert(crlf_at(w, l));
    match line_end(w) {
        Some(n) => {
            if n < l {
                if n + 1 < l {
                    assert(crlf_at(line, n as int));
                } else {
                    assert(w[n + 1int] == CR);
                }
            }
            assert(n == l);
            assert(w.take(l) =~= line);
            assert(w.skip(l + 2) =~= rest);
        },
        None => {},
    }
}

/// Bytes without a terminator hold no complete line.
proof fn lemma_no_line(b: Seq<u8>)
    requires
        no_terminator(b),
    ensures
        split_line(b) is None,
{
    lemma_line_end(b);
}

/// Runs of `step` from `x` that take exactly `m` steps.
spec fn steps_exact(step: spec_fn(SessionView) -> Option<Step>, x: SessionView, m: nat) -> bool
    decreases m,
{
    m == 0 || (step(x) is Some && steps_exact(step, step(x)->0.after, (m - 1) as nat))
}

/// A run of `n` steps is one of exactly `m <= n` steps, after which no step
/// is left unless `m == n`.
proof fn lemma_run_exact(step: spec_fn(SessionView) -> Option<Step>, x: SessionView, n: nat) -> (m: nat)
    ensures
        m <= n,
        steps_exact(step, x, m),
        run(step, x, n) == run(step, x, m),
        m < n ==> step(run(step, x, m)) is None,
    decreases n,
{
    if n == 0 {
        0
    } else {
        match step(x) {
            None => 0,
            Some(st) => {
                let k = lemma_run_exact(step, st.after, (n - 1) as nat);
                assert(run(step, x, k + 1) == run(step, st.after, k));
                k + 1
            },
        }
    }
}

/// A run of `m + j` steps is a run of `j` steps after a run of `m` steps.
proof fn lemma_run_add(step: spec_fn(SessionView) -> Option<Step>, x: SessionView, m: nat, j: nat)
    ensures
        run(step, x, m + j) == run(step, run(step, x, m), j),
    decreases m,
{
    if m > 0 {
        match step(x) {
            Some(st) => {
                lemma_run_add(step, st.after, (m - 1) as nat, j);
                assert((m + j - 1) as nat == (m - 1) as nat + j);
            },
            None => {
                lemma_run_stable(step, x, 0, j);
                lemma_run_stable(step, x, 0, m + j);
            },
        }
    }
}

/// Where every step lowers a measure, a run of as many steps as the
/// measure leaves no step.
proof fn lemma_run_ends(
    step: spec_fn(SessionView) -> Option<Step>,
    measure: spec_fn(SessionView) -> nat,
    x: SessionView,
    n: nat,
)
    requires
        forall|y: SessionView| #[trigger] step(y) is Some ==> measure(step(y)->0.after) < measure(y),
        measure(x) <= n,
    ensures
        step(run(step, x, n)) is None,
    decreases n,
{
    if let Some(st) = step(x) {
        assert(measure(st.after) < measure(x));
        lemma_run_ends(step, measure, st.after, (n - 1) as nat);
    }
}

spec fn upstream_measure() -> spec_fn(SessionView) -> nat {
    |s: SessionView| s.upstream.len()
}

/// Every step on what the server sent shortens what is left to read.
proof fn lemma_up_measure()
    ensures
        forall|y: SessionView| #[trigger] up_steps()(y) is Some ==> upstream_measure()(
            up_steps()(y)->0.after,
        ) < upstream_measure()(y),
{
    assert forall|y: SessionView| #[trigger] up_steps()(y) is Some implies upstream_measure()(
        up_steps()(y)->0.after,
    ) < upstream_measure()(y) by {
        lemma_up_step_shrinks(y);
    }
}

/// Draining from a state reached by some steps gives what draining from
/// the start gives.
proof fn lemma_drain_up_from(y: SessionView, m: nat)
    ensures
        drain_up(run(up_steps(), y, m)) == drain_up(y),
{
    let x = run(up_steps(), y, m);
    let lx = x.upstream.len();
    let ly = y.upstream.len();
    lemma_up_measure();
    lemma_run_ends(up_steps(), upstream_measure(), x, lx);
    lemma_run_ends(up_steps(), upstream_measure(), y, ly);
    lemma_run_add(up_steps(), y, m, lx);
    if ly <= m + lx {
        lemma_run_stable(up_steps(), y, ly, m + lx);
    } else {
        lemma_run_stable(up_steps(), y, m + lx, ly);
    }
}

/// Bytes from the server that arrive later do not change a step on what
/// was there before, unless the step stops the interpretation.
proof fn lemma_up_step_feed(t: SessionView, b: Seq<u8>)
    requires
        t.mode != Mode::PassThrough,
        up_step(t) is Some,
        up_step(t)->0.after.mode != Mode::PassThrough,
    ensures
        up_step(feed_up(t, b)) is Some,
        up_step(feed_up(t, b))->0.after == feed_up(up_step(t)->0.after, b),
{
    lemma_line_end_prefix(t.upstream, b);
    lemma_line_end(t.upstream);
    let n = line_end(t.upstream)->0;
    assert((t.upstream + b).take(n as int) =~= t.upstream.take(n as int));
    assert((t.upstream + b).skip(n + 2int) =~= t.upstream.skip(n + 2int) + b);
}

/// Steps on what was there before are the same steps after more bytes
/// from the server arrive, as long as none stops the interpretation.
proof fn lemma_up_run_feed(x: SessionView, b: Seq<u8>, m: nat)
    requires
        x.mode != Mode::PassThrough,
        steps_exact(up_steps(), x, m),
        run(up_steps(), x, m).mode != Mode::PassThrough,
    ensures
        run(up_steps(), feed_up(x, b), m) == feed_up(run(up_steps(), x, m), b),
    decreases m,
{
    if m > 0 {
        assert(up_steps()(x) == up_step(x));
        let st = up_step(x)->0;
        assert(steps_exact(up_steps(), st.after, (m - 1) as nat));
        assert(run(up_steps(), x, m) == run(up_steps(), st.after, (m - 1) as nat));
        if m > 1 {
            assert(up_steps()(st.after) is Some);
            assert(up_step(st.after) is Some);
        }
        assert(st.after.mode != Mode::PassThrough);
        assert(up_steps()(feed_up(x, b)) == up_step(feed_up(x, b)));
        lemma_up_step_feed(x, b);
        lemma_up_run_feed(st.after, b, (m - 1) as nat);
    }
}


/// While the session waits for the greeting or for commands, one complete
/// command line, sent when nothing else from the client is buffered, adds
/// exactly the command it spells to what waits for a reply and changes
/// nothing else. The same line sent in two pieces, split anywhere, leaves
/// the same state.
pub proof fn law_command_line(s: SessionView, line: Seq<u8>, k: int)
    requires
        s.mode == Mode::Connect || s.mode == Mode::Command,
        s.downstream.len() == 0,
        no_terminator(line),
        parse_command(line) is Ok,
        0 <= k <= line.len() + 2,
    ensures
        drain_down(feed_down(s, line + seq![CR, LF])) == (SessionView {
            pending: s.pending.push(PendingView::Command(parse_command(line)->Ok_0)),
            events: s.events.push(SinkEvent::Command(parse_command(line)->Ok_0.verb())),
            ..s
        }),
        drain_down(
            feed_down(
                drain_down(feed_down(s, (line + seq![CR, LF]).take(k))),
                (line + seq![CR, LF]).skip(k),
            ),
        ) == drain_down(feed_down(s, line + seq![CR, LF])),
{
    let w = line + seq![CR, LF];
    let x = feed_down(s, w);
    let expected = SessionView {
        pending: s.pending.push(PendingView::Command(parse_command(line)->Ok_0)),
        events: s.events.push(SinkEvent::Command(parse_command(line)->Ok_0.verb())),
        ..s
    };
    assert(x.downstream =~= line + seq![CR, LF] + seq![]);
    lemma_split_complete_line(line, seq![]);
    assert(s.downstream =~= Seq::<u8>::empty());
    assert(down_steps()(x) == down_step(x));
    assert(down_step(x)->0.after == expected);
    lemma_run_next(down_steps(), x, 0);
    assert(down_steps()(expected) == down_step(expected));
    assert(split_line(expected.downstream) is None);
    lemma_run_stable(down_steps(), x, 1, w.len());
    assert(drain_down(x) == expected);
    let p = w.take(k);
    let q = w.skip(k);
    if k == w.len() {
        assert(p =~= w);
        assert(feed_down(expected, q) == expected) by {
            assert(expected.downstream + q =~= expected.downstream);
        }
        assert(down_steps()(expected) == down_step(expected));
        lemma_run_stable(down_steps(), expected, 0, 0);
    } else {
        assert forall|i: int| !crlf_at(p, i) by {
            if crlf_at(p, i) {
                if i + 1 < line.len() {
                    assert(crlf_at(line, i));
                } else {
                    assert(p[i + 1] == CR);
                }
            }
        }
        lemma_no_line(p);
        let y = feed_down(s, p);
        assert(y.downstream =~= p);
        assert(down_steps()(y) == down_step(y));
        lemma_run_stable(down_steps(), y, 0, y.downstream.len());
        assert(feed_down(y, q) == x) by {
            assert(y.downstream + q =~= s.downstream + w);
        }
    }
}

/// Once traffic is no longer interpreted, nothing read from either side
/// changes the session: bytes are dropped and no step is taken.
pub proof fn law_pass_through_absorbs(s: SessionView, bytes: Seq<u8>)
    requires
        s.mode == Mode::PassThrough,
    ensures
        down_step(s) is None,
        up_step(s) is None,
        drain_down(feed_down(s, bytes)) == s,
        drain_up(feed_up(s, bytes)) == s,
{
    assert(down_steps()(s) == down_step(s));
    assert(up_steps()(s) == up_step(s));
    lemma_run_stable(down_steps(), s, 0, s.downstream.len());
    lemma_run_stable(up_steps(), s, 0, s.upstream.len());
}

/// A complete reply answers the oldest pending entry: that entry leaves
/// the queue, the others keep their order, the sink is told of the reply
/// together with that entry, and the reply has the effect that belongs to
/// that entry.
pub proof fn law_reply_answers_oldest(s: SessionView, line: Seq<u8>, rest: Seq<u8>)
    requires
        s.mode != Mode::PassThrough,
        s.pending.len() > 0,
        split_line(s.upstream) == Some((line, rest)),
        parse_reply_line(line) matches Ok(l) && l.last,
    ensures
        up_step(s) matches Some(st) && st.event == Some(
            reply_event(
                s.pending[0],
                reply_code(extend_reply(s.next_reply, parse_reply_line(line)->Ok_0)),
            ),
        ) && st.mid.events == s.events.push(st.event->0) && st.mid.pending == s.pending.drop_first()
            && st.after.pending == s.pending.drop_first() && st.after == reply_effect(
            st.mid,
            s.pending[0],
            reply_code(extend_reply(s.next_reply, parse_reply_line(line)->Ok_0)),
        ),
{
}

/// How the bytes from the server are cut into pieces does not matter: two
/// pieces read one after the other leave the state that the two read at
/// once leave, as long as the first piece does not end the interpretation.
pub proof fn law_reply_chunks(s: SessionView, a: Seq<u8>, b: Seq<u8>)
    requires
        s.mode != Mode::PassThrough,
        drain_up(feed_up(s, a)).mode != Mode::PassThrough,
    ensures
        drain_up(feed_up(drain_up(feed_up(s, a)), b)) == drain_up(feed_up(s, a + b)),
{
    let x = feed_up(s, a);
    let m = lemma_run_exact(up_steps(), x, x.upstream.len());
    lemma_up_run_feed(x, b, m);
    lemma_drain_up_from(feed_up(x, b), m);
    assert(feed_up(s, a + b) == feed_up(x, b)) by {
        assert(s.upstream + (a + b) =~= s.upstream + a + b);
    }
}

/// A complete reply while nothing is pending is the out-of-step error, and
/// nothing but that error changes the session: it stops interpreting
/// traffic for good, whether or not the sink accepts the one call that
/// reports the parse error.
pub proof fn law_reply_without_pending(s: SessionView, lines: Seq<ReplyLineView>)
    requires
        s.pending.len() == 0,
    ensures
        oldest_pending(s.pending) == Err::<PendingView, ParseError>(ParseError::UnexpectedReply),
        reply_step(s, lines) == fallback_step(s),
        reply_step(s, lines).event == Some(SinkEvent::ParseError),
        reply_step(s, lines).mid == reply_step(s, lines).after,
        reply_step(s, lines).after == (SessionView {
            mode: Mode::PassThrough,
            events: s.events.push(SinkEvent::ParseError),
            ..s
        }),
{
}


/// A one-line reply, read while nothing is pending, is consumed and ends
/// the interpretation; nothing else changes.
pub proof fn law_one_line_reply_without_pending(s: SessionView, line: Seq<u8>)
    requires
        s.mode != Mode::PassThrough,
        s.pending.len() == 0,
        s.next_reply is None,
        s.upstream.len() == 0,
        no_terminator(line),
        parse_reply_line(line) matches Ok(l) && l.last,
    ensures
        drain_up(feed_up(s, line + seq![CR, LF])) == (SessionView {
            upstream: seq![],
            mode: Mode::PassThrough,
            events: s.events.push(SinkEvent::ParseError),
            ..s
        }),
{
    let x = feed_up(s, line + seq![CR, LF]);
    assert(x.upstream =~= line + seq![CR, LF] + seq![]);
    lemma_split_complete_line(line, seq![]);
    assert(up_steps()(x) == up_step(x));
    lemma_run_next(up_steps(), x, 0);
    let after = up_step(x)->0.after;
    assert(up_steps()(after) == up_step(after));
    lemma_run_stable(up_steps(), x, 1, x.upstream.len());
}

/// A three-line reply, read while nothing is pending, is consumed and ends
/// the interpretation once its last line arrives; nothing else changes.
pub proof fn law_three_line_reply_without_pending(
    s: SessionView,
    l1: Seq<u8>,
    l2: Seq<u8>,
    l3: Seq<u8>,
)
    requires
        s.mode != Mode::PassThrough,
        s.pending.len() == 0,
        s.next_reply is None,
        s.upstream.len() == 0,
        no_terminator(l1),
        no_terminator(l2),
        no_terminator(l3),
        parse_reply_line(l1) matches Ok(v) && !v.last,
        parse_reply_line(l2) matches Ok(v) && !v.last,
        parse_reply_line(l3) matches Ok(v) && v.last,
    ensures
        drain_up(
            feed_up(s, l1 + seq![CR, LF] + l2 + seq![CR, LF] + l3 + seq![CR, LF]),
        ) == (SessionView {
            upstream: seq![],
            mode: Mode::PassThrough,
            events: s.events.push(SinkEvent::ParseError),
            ..s
        }),
{
    let crlf = seq![CR, LF];
    let r2 = l2 + crlf + l3 + crlf;
    let r3 = l3 + crlf;
    let x0 = feed_up(s, l1 + crlf + l2 + crlf + l3 + crlf);
    assert(x0.upstream =~= l1 + crlf + r2);
    lemma_split_complete_line(l1, r2);
    assert(up_steps()(x0) == up_step(x0));
    lemma_run_next(up_steps(), x0, 0);
    let x1 = up_step(x0)->0.after;
    assert(x1.upstream == r2);
    assert(r2 =~= l2 + crlf + r3);
    lemma_split_complete_line(l2, r3);
    assert(up_steps()(x1) == up_step(x1));
    lemma_run_next(up_steps(), x0, 1);
    let x2 = up_step(x1)->0.after;
    assert(x2.upstream == r3);
    assert(r3 =~= l3 + crlf + seq![]);
    lemma_split_complete_line(l3, seq![]);
    assert(up_steps()(x2) == up_step(x2));
    lemma_run_next(up_steps(), x0, 2);
    let x3 = up_step(x2)->0.after;
    assert(up_steps()(x3) == up_step(x3));
    assert(x3 == (SessionView {
        upstream: seq![],
        mode: Mode::PassThrough,
        events: s.events.push(SinkEvent::ParseError),
        ..s
    }));
    lemma_run_stable(up_steps(), x0, 3, x0.upstream.len());
}


spec fn downstream_measure() -> spec_fn(SessionView) -> nat {
    |s: SessionView| s.downstream.len()
}

/// Draining what the client sent from a state reached by some steps gives
/// what draining from the start gives.
proof fn lemma_drain_down_from(y: SessionView, m: nat)
    ensures
        drain_down(run(down_steps(), y, m)) == drain_down(y),
{
    let x = run(down_steps(), y, m);
    let lx = x.downstream.len();
    let ly = y.downstream.len();
    assert forall|z: SessionView| #[trigger] down_steps()(z) is Some implies downstream_measure()(
        down_steps()(z)->0.after,
    ) < downstream_measure()(z) by {
        lemma_down_step_shrinks(z);
    }
    lemma_run_ends(down_steps(), downstream_measure(), x, lx);
    lemma_run_ends(down_steps(), downstream_measure(), y, ly);
    lemma_run_add(down_steps(), y, m, lx);
    if ly <= m + lx {
        lemma_run_stable(down_steps(), y, ly, m + lx);
    } else {
        lemma_run_stable(down_steps(), y, m + lx, ly);
    }
}

/// Bytes from the client that arrive later do not change a step on what
/// was there before, unless the step stops the interpretation.
proof fn lemma_down_step_feed(t: SessionView, b: Seq<u8>)
    requires
        t.mode != Mode::PassThrough,
        down_step(t) is Some,
        down_step(t)->0.after.mode != Mode::PassThrough,
    ensures
        down_step(feed_down(t, b)) is Some,
        down_step(feed_down(t, b))->0.after == feed_down(down_step(t)->0.after, b),
{
    lemma_line_end_prefix(t.downstream, b);
    lemma_line_end(t.downstream);
    let n = line_end(t.downstream)->0;
    assert((t.downstream + b).take(n as int) =~= t.downstream.take(n as int));
    assert((t.downstream + b).skip(n + 2int) =~= t.downstream.skip(n + 2int) + b);
}

/// Steps on what was there before are the same steps after more bytes
/// from the client arrive, as long as none stops the interpretation.
proof fn lemma_down_run_feed(x: SessionView, b: Seq<u8>, m: nat)
    requires
        x.mode != Mode::PassThrough,
        steps_exact(down_steps(), x, m),
        run(down_steps(), x, m).mode != Mode::PassThrough,
    ensures
        run(down_steps(), feed_down(x, b), m) == feed_down(run(down_steps(), x, m), b),
    decreases m,
{
    if m > 0 {
        assert(down_steps()(x) == down_step(x));
        let st = down_step(x)->0;
        assert(steps_exact(down_steps(), st.after, (m - 1) as nat));
        assert(run(down_steps(), x, m) == run(down_steps(), st.after, (m - 1) as nat));
        if m > 1 {
            assert(down_steps()(st.after) is Some);
            assert(down_step(st.after) is Some);
        }
        assert(st.after.mode != Mode::PassThrough);
        assert(down_steps()(feed_down(x, b)) == down_step(feed_down(x, b)));
        lemma_down_step_feed(x, b);
        lemma_down_run_feed(st.after, b, (m - 1) as nat);
    }
}

/// How the bytes from the client are cut into pieces does not matter: two
/// pieces read one after the other leave the state that the two read at
/// once leave, as long as the first piece does not end the interpretation.
pub proof fn law_command_chunks(s: SessionView, a: Seq<u8>, b: Seq<u8>)
    requires
        s.mode != Mode::PassThrough,
        drain_down(feed_down(s, a)).mode != Mode::PassThrough,
    ensures
        drain_down(feed_down(drain_down(feed_down(s, a)), b)) == drain_down(feed_down(s, a + b)),
{
    let x = feed_down(s, a);
    let m = lemma_run_exact(down_steps(), x, x.downstream.len());
    lemma_down_run_feed(x, b, m);
    lemma_drain_down_from(feed_down(x, b), m);
    assert(feed_down(s, a + b) == feed_down(x, b)) by {
        assert(s.downstream + (a + b) =~= s.downstream + a + b);
    }
}

} // verus!

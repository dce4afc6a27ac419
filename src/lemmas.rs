use vstd::prelude::*;

use crate::window::{
    absorb, deadline_after, expired, fresh, pending_events, run, settled, step, Debouncer, Event,
    Input, Position, Signal, Size, State,
};

verus! {

/// Whether `s` holds no relevant event and no end: only ticks and ignored events.
pub open spec fn silent(s: Seq<Input>) -> bool {
    forall|k: int| 0 <= k < s.len() ==> (#[trigger] s[k]).signal is Tick || s[k].signal is Other
}

/// Whether `s` holds a tick at or after `due`.
pub open spec fn wakes(s: Seq<Input>, due: u64) -> bool {
    exists|k: int| 0 <= k < s.len() && (#[trigger] s[k]).signal is Tick && s[k].at >= due
}

/// Move events to the positions `ps`, the `k`th at `times[k]`.
pub open spec fn moves(ps: Seq<Position>, times: Seq<u64>) -> Seq<Input> {
    Seq::new(ps.len(), |k: int| Input { at: times[k], signal: Signal::Window(Event::Moved(ps[k])) })
}

/// `s` without its ignored events.
pub open spec fn relevant(s: Seq<Input>) -> Seq<Input>
    decreases s.len(),
{
    if s.len() == 0 {
        s
    } else if s.last().signal is Other {
        relevant(s.drop_last())
    } else {
        relevant(s.drop_last()).push(s.last())
    }
}

/// The time of the latest relevant event in `s`, or `t0` where it holds none.
pub open spec fn latest_event(s: Seq<Input>, t0: u64) -> u64
    decreases s.len(),
{
    if s.len() == 0 {
        t0
    } else if s.last().signal is Window {
        s.last().at
    } else {
        latest_event(s.drop_last(), t0)
    }
}

/// Whether each input of `s` comes within the quiet period `q` of the latest
/// relevant event before it, the first of them having come at `t0`: a relevant
/// event at that deadline at the latest, a tick strictly before it, and no end.
pub open spec fn paced(s: Seq<Input>, q: u64, t0: u64) -> bool
    decreases s.len(),
{
    if s.len() == 0 {
        true
    } else {
        let due = deadline_after(latest_event(s.drop_last(), t0), q);
        paced(s.drop_last(), q, t0) && match s.last().signal {
            Signal::Window(_) => s.last().at <= due,
            Signal::Tick => s.last().at < due,
            Signal::Other => true,
            Signal::End => false,
        }
    }
}

/// Running `a` and then `b` is running `a + b`: outputs are concatenated.
pub proof fn lemma_run_append(d: Debouncer, a: Seq<Input>, b: Seq<Input>)
    ensures
        run(d, a + b).0 == run(run(d, a).0, b).0,
        run(d, a + b).1 == run(d, a).1 + run(run(d, a).0, b).1,
    decreases b.len(),
{
    if b.len() == 0 {
        assert(a + b == a);
        assert(run(d, a).1 + seq![] == run(d, a).1);
    } else {
        lemma_run_append(d, a, b.drop_last());
        assert((a + b).drop_last() == a + b.drop_last());
        assert((a + b).last() == b.last());
        let m = run(d, a);
        let p = run(m.0, b.drop_last());
        let x = step(p.0, b.last());
        assert(m.1 + p.1 + x.1 == m.1 + (p.1 + x.1));
    }
}

/// A stopped machine stays stopped and emits nothing, whatever comes.
pub proof fn lemma_ended_is_final(d: Debouncer, s: Seq<Input>)
    requires
        d.ended,
    ensures
        run(d, s) == (d, Seq::<Event>::empty()),
    decreases s.len(),
{
    if s.len() > 0 {
        lemma_ended_is_final(d, s.drop_last());
        assert(Seq::<Event>::empty() + seq![] == Seq::<Event>::empty());
    }
}

/// When the source ends, what is pending is dropped, not emitted, and
/// nothing is emitted afterwards.
pub proof fn lemma_end_drops_pending(d: Debouncer, at: u64, s: Seq<Input>)
    ensures
        run(d, seq![Input { at, signal: Signal::End }] + s).0.ended,
        run(d, seq![Input { at, signal: Signal::End }] + s).1 == Seq::<Event>::empty(),
{
    let e = seq![Input { at, signal: Signal::End }];
    lemma_run_append(d, e, s);
    assert(e.drop_last() == Seq::<Input>::empty());
    assert(e.last() == Input { at, signal: Signal::End });
    assert(Seq::<Event>::empty() + seq![] == Seq::<Event>::empty());
    assert(run(d, Seq::<Input>::empty()) == (d, Seq::<Event>::empty()));
    let m = run(d, e);
    assert(m.0.ended);
    assert(m.1 == Seq::<Event>::empty());
    lemma_ended_is_final(m.0, s);
    assert(m.1 + Seq::<Event>::empty() == Seq::<Event>::empty());
}

/// Ignored events change nothing: neither the state, nor the deadline, nor
/// what is emitted, wherever they stand in a run.
pub proof fn lemma_other_ignored(d: Debouncer, s: Seq<Input>)
    ensures
        run(d, s) == run(d, relevant(s)),
    decreases s.len(),
{
    if s.len() > 0 {
        lemma_other_ignored(d, s.drop_last());
        let p = run(d, s.drop_last());
        if s.last().signal is Other {
            assert(p.1 + seq![] == p.1);
        } else {
            let r = relevant(s.drop_last()).push(s.last());
            assert(r.drop_last() == relevant(s.drop_last()));
            assert(r.last() == s.last());
        }
    }
}

/// A run of ticks and ignored events emits what is pending once a tick comes
/// at or after the deadline, and leaves the machine idle; before that tick it
/// emits nothing and changes nothing.
pub proof fn lemma_silence_settles(d: Debouncer, s: Seq<Input>)
    requires
        !d.ended,
        silent(s),
    ensures
        run(d, s) == (if wakes(s, d.deadline) {
            (settled(d), pending_events(d.state))
        } else {
            (d, Seq::<Event>::empty())
        }),
    decreases s.len(),
{
    if s.len() > 0 {
        let p = s.drop_last();
        let x = s.last();
        assert(silent(p)) by {
            assert forall|k: int| 0 <= k < p.len() implies (#[trigger] p[k]).signal is Tick
                || p[k].signal is Other by {
                assert(p[k] == s[k]);
            }
        }
        assert(x == s[s.len() - 1]);
        lemma_silence_settles(d, p);
        if d.state is Idle {
            assert(settled(d) == d);
        }
        if wakes(p, d.deadline) {
            let k = choose|k: int| 0 <= k < p.len() && (#[trigger] p[k]).signal is Tick && p[k].at
                >= d.deadline;
            assert(s[k] == p[k]);
            assert(pending_events(d.state) + seq![] == pending_events(d.state));
        } else {
            assert(Seq::<Event>::empty() + pending_events(d.state) == pending_events(d.state));
            assert(Seq::<Event>::empty() + seq![] == Seq::<Event>::empty());
            if !wakes(s, d.deadline) {
            } else {
                let k = choose|k: int| 0 <= k < s.len() && (#[trigger] s[k]).signal is Tick && s[k].at
                    >= d.deadline;
                if k < p.len() {
                    assert(p[k] == s[k]);
                }
            }
        }
    }
}

/// While events keep coming within the quiet period of the one before, the
/// window keeps sliding: nothing is emitted, something stays pending, and the
/// deadline is the quiet period after the latest event.
pub proof fn lemma_sliding_window(d: Debouncer, s: Seq<Input>, t0: u64)
    requires
        !d.ended,
        !(d.state is Idle),
        d.deadline == deadline_after(t0, d.quiet_period),
        paced(s, d.quiet_period, t0),
    ensures
        run(d, s).1 == Seq::<Event>::empty(),
        !run(d, s).0.ended,
        !(run(d, s).0.state is Idle),
        run(d, s).0.quiet_period == d.quiet_period,
        run(d, s).0.deadline == deadline_after(latest_event(s, t0), d.quiet_period),
    decreases s.len(),
{
    if s.len() > 0 {
        lemma_sliding_window(d, s.drop_last(), t0);
        assert(Seq::<Event>::empty() + seq![] == Seq::<Event>::empty());
    }
}

/// One relevant event in time, then silence until a tick at or after the new
/// deadline: the machine emits the state that the event leads to, settled.
pub proof fn lemma_event_then_silence(d: Debouncer, x: Input, e: Event, s: Seq<Input>)
    requires
        !d.ended,
        x.signal == Signal::Window(e),
        !expired(d, x.at),
        silent(s),
        wakes(s, deadline_after(x.at, d.quiet_period)),
    ensures
        run(d, seq![x] + s) == (
            Debouncer { state: State::Idle, deadline: deadline_after(x.at, d.quiet_period), ..d },
            pending_events(absorb(d.state, e)),
        ),
{
    let one = seq![x];
    lemma_run_append(d, one, s);
    assert(one.drop_last() == Seq::<Input>::empty());
    assert(one.last() == x);
    assert(run(d, Seq::<Input>::empty()) == (d, Seq::<Event>::empty()));
    assert(Seq::<Event>::empty() + Seq::<Event>::empty() == Seq::<Event>::empty());
    let m = run(d, one);
    assert(m.0 == Debouncer {
        state: absorb(d.state, e),
        deadline: deadline_after(x.at, d.quiet_period),
        ..d
    });
    lemma_silence_settles(m.0, s);
    assert(Seq::<Event>::empty() + pending_events(absorb(d.state, e)) == pending_events(
        absorb(d.state, e),
    ));
}

/// A single move, then silence for the quiet period, yields that one move
/// and leaves the machine idle.
pub proof fn lemma_single_move_settles(q: u64, at: u64, p: Position, s: Seq<Input>)
    requires
        silent(s),
        wakes(s, deadline_after(at, q)),
    ensures
        run(fresh(q), seq![Input { at, signal: Signal::Window(Event::Moved(p)) }] + s).1
            == seq![Event::Moved(p)],
        run(fresh(q), seq![Input { at, signal: Signal::Window(Event::Moved(p)) }] + s).0.state
            == State::Idle,
{
    lemma_event_then_silence(
        fresh(q),
        Input { at, signal: Signal::Window(Event::Moved(p)) },
        Event::Moved(p),
        s,
    );
}

/// A resize in time while a move is pending, then silence: both are
/// emitted, the move first.
pub proof fn lemma_cross_axis_promotion(d: Debouncer, p: Position, at: u64, z: Size, s: Seq<Input>)
    requires
        !d.ended,
        d.state == State::Moving(p),
        at <= d.deadline,
        silent(s),
        wakes(s, deadline_after(at, d.quiet_period)),
    ensures
        run(d, seq![Input { at, signal: Signal::Window(Event::Resized(z)) }] + s).1 == seq![
            Event::Moved(p),
            Event::Resized(z),
        ],
{
    lemma_event_then_silence(
        d,
        Input { at, signal: Signal::Window(Event::Resized(z)) },
        Event::Resized(z),
        s,
    );
}

/// While both axes are pending, a move replaces the position only: after
/// silence the new position and the size held before are emitted.
pub proof fn lemma_both_keeps_size(
    d: Debouncer,
    p0: Position,
    s0: Size,
    p1: Position,
    at: u64,
    s: Seq<Input>,
)
    requires
        !d.ended,
        d.state == State::Both(p0, s0),
        at <= d.deadline,
        silent(s),
        wakes(s, deadline_after(at, d.quiet_period)),
    ensures
        run(d, seq![Input { at, signal: Signal::Window(Event::Moved(p1)) }] + s).1 == seq![
            Event::Moved(p1),
            Event::Resized(s0),
        ],
{
    lemma_event_then_silence(
        d,
        Input { at, signal: Signal::Window(Event::Moved(p1)) },
        Event::Moved(p1),
        s,
    );
}

/// While both axes are pending, a resize replaces the size only: after
/// silence the position held before and the new size are emitted.
pub proof fn lemma_both_keeps_position(
    d: Debouncer,
    p0: Position,
    s0: Size,
    s1: Size,
    at: u64,
    s: Seq<Input>,
)
    requires
        !d.ended,
        d.state == State::Both(p0, s0),
        at <= d.deadline,
        silent(s),
        wakes(s, deadline_after(at, d.quiet_period)),
    ensures
        run(d, seq![Input { at, signal: Signal::Window(Event::Resized(s1)) }] + s).1 == seq![
            Event::Moved(p0),
            Event::Resized(s1),
        ],
{
    lemma_event_then_silence(
        d,
        Input { at, signal: Signal::Window(Event::Resized(s1)) },
        Event::Resized(s1),
        s,
    );
}

proof fn lemma_moves_pending(q: u64, ps: Seq<Position>, times: Seq<u64>)
    requires
        ps.len() > 0,
        times.len() == ps.len(),
        forall|k: int| 0 < k < times.len() ==> #[trigger] times[k] <= deadline_after(times[k - 1], q),
    ensures
        run(fresh(q), moves(ps, times)) == (
            Debouncer {
                quiet_period: q,
                state: State::Moving(ps.last()),
                deadline: deadline_after(times.last(), q),
                ended: false,
            },
            Seq::<Event>::empty(),
        ),
    decreases ps.len(),
{
    let m = moves(ps, times);
    assert(Seq::<Event>::empty() + Seq::<Event>::empty() == Seq::<Event>::empty());
    assert(m.last() == Input {
        at: times.last(),
        signal: Signal::Window(Event::Moved(ps.last())),
    });
    if ps.len() == 1 {
        assert(m.drop_last() == Seq::<Input>::empty());
        assert(run(fresh(q), Seq::<Input>::empty()) == (fresh(q), Seq::<Event>::empty()));
    } else {
        let (ps1, times1) = (ps.drop_last(), times.drop_last());
        assert forall|k: int| 0 < k < times1.len() implies #[trigger] times1[k] <= deadline_after(
            times1[k - 1],
            q,
        ) by {
            assert(times1[k] == times[k]);
            assert(times1[k - 1] == times[k - 1]);
        }
        lemma_moves_pending(q, ps1, times1);
        assert(m.drop_last() == moves(ps1, times1));
        assert(times[times.len() - 1] <= deadline_after(times[times.len() - 2], q));
    }
}

/// Moves that each come within the quiet period of the one before, then
/// silence: only the last position is emitted, the ones between never are.
pub proof fn lemma_rapid_moves_coalesce(
    q: u64,
    ps: Seq<Position>,
    times: Seq<u64>,
    s: Seq<Input>,
)
    requires
        ps.len() > 0,
        times.len() == ps.len(),
        forall|k: int| 0 < k < times.len() ==> #[trigger] times[k] <= deadline_after(times[k - 1], q),
        silent(s),
        wakes(s, deadline_after(times.last(), q)),
    ensures
        run(fresh(q), moves(ps, times) + s).1 == seq![Event::Moved(ps.last())],
{
    lemma_moves_pending(q, ps, times);
    lemma_run_append(fresh(q), moves(ps, times), s);
    let m = run(fresh(q), moves(ps, times));
    lemma_silence_settles(m.0, s);
    assert(Seq::<Event>::empty() + seq![Event::Moved(ps.last())] == seq![Event::Moved(ps.last())]);
}

} // verus!

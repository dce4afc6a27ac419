use vstd::prelude::*;

verus! {

/// A window position, in logical pixels.
#[derive(Clone, Copy, Debug, PartialEq, Eq, Structural)]
pub struct Position {
    pub x: i32,
    pub y: i32,
}

/// A window size, in logical pixels.
#[derive(Clone, Copy, Debug, PartialEq, Eq, Structural)]
pub struct Size {
    pub width: u32,
    pub height: u32,
}

/// A window event on one of the two axes that are debounced.
///
/// As input it says that the window is moving or being resized; as output
/// it says that the window has settled at that position or size.
#[derive(Clone, Copy, Debug, PartialEq, Eq, Structural)]
pub enum Event {
    Moved(Position),
    Resized(Size),
}

/// What is pending, awaiting a quiet period.
#[derive(Clone, Copy, Debug, PartialEq, Eq, Structural)]
pub enum State {
    Idle,
    Moving(Position),
    Resizing(Size),
    Both(Position, Size),
}

/// What the driver of a [`Debouncer`] observed.
#[derive(Clone, Copy, Debug, PartialEq, Eq, Structural)]
pub enum Signal {
    /// A relevant window event arrived.
    Window(Event),
    /// Some other event arrived; it is ignored.
    Other,
    /// The timer woke the driver.
    Tick,
    /// The source of events ended.
    End,
}

/// A signal together with the time, in milliseconds, at which it was observed.
#[derive(Clone, Copy, Debug, PartialEq, Eq, Structural)]
pub struct Input {
    pub at: u64,
    pub signal: Signal,
}

/// The coalescing state machine.
///
/// `deadline` is the instant at which the pending state settles if no
/// relevant event arrives before; it has no meaning while `state` is idle.
/// Once `ended`, the machine ignores all inputs and emits nothing.
#[derive(Clone, Copy, Debug, PartialEq, Eq, Structural)]
pub struct Debouncer {
    pub quiet_period: u64,
    pub state: State,
    pub deadline: u64,
    pub ended: bool,
}

/// `at + quiet`, saturated at the largest instant.
pub open spec fn deadline_after(at: u64, quiet: u64) -> u64 {
    if at + quiet <= u64::MAX {
        (at + quiet) as u64
    } else {
        u64::MAX
    }
}

/// The events that settling `s` emits, position before size.
pub open spec fn pending_events(s: State) -> Seq<Event> {
    match s {
        State::Idle => seq![],
        State::Moving(p) => seq![Event::Moved(p)],
        State::Resizing(z) => seq![Event::Resized(z)],
        State::Both(p, z) => seq![Event::Moved(p), Event::Resized(z)],
    }
}

/// `s` after observing `e`: the axis of `e` takes its value, the other axis
/// keeps what was pending on it.
pub open spec fn absorb(s: State, e: Event) -> State {
    match e {
        Event::Moved(p) => match s {
            State::Idle | State::Moving(_) => State::Moving(p),
            State::Resizing(z) | State::Both(_, z) => State::Both(p, z),
        },
        Event::Resized(z) => match s {
            State::Idle | State::Resizing(_) => State::Resizing(z),
            State::Moving(p) | State::Both(p, _) => State::Both(p, z),
        },
    }
}

/// A machine in the state it has before any input.
pub open spec fn fresh(quiet: u64) -> Debouncer {
    Debouncer { quiet_period: quiet, state: State::Idle, deadline: 0, ended: false }
}

/// `d` with its pending state dropped.
pub open spec fn settled(d: Debouncer) -> Debouncer {
    Debouncer { state: State::Idle, ..d }
}

/// Whether a pending state of `d` has expired at `at`: the quiet period has
/// passed with no relevant event. An event at the deadline itself is in time.
pub open spec fn expired(d: Debouncer, at: u64) -> bool {
    !(d.state is Idle) && at > d.deadline
}

/// The machine after one input, and what that input makes it emit.
pub open spec fn step(d: Debouncer, i: Input) -> (Debouncer, Seq<Event>) {
    if d.ended {
        (d, seq![])
    } else {
        match i.signal {
            Signal::Other => (d, seq![]),
            Signal::End => (Debouncer { state: State::Idle, ended: true, ..d }, seq![]),
            Signal::Tick => if !(d.state is Idle) && i.at >= d.deadline {
                (settled(d), pending_events(d.state))
            } else {
                (d, seq![])
            },
            Signal::Window(e) => {
                let base = if expired(d, i.at) { State::Idle } else { d.state };
                let out = if expired(d, i.at) { pending_events(d.state) } else { seq![] };
                (
                    Debouncer {
                        state: absorb(base, e),
                        deadline: deadline_after(i.at, d.quiet_period),
                        ..d
                    },
                    out,
                )
            },
        }
    }
}

/// The machine after a run of inputs, and all that the run emits, in order.
pub open spec fn run(d: Debouncer, s: Seq<Input>) -> (Debouncer, Seq<Event>)
    decreases s.len(),
{
    if s.len() == 0 {
        (d, seq![])
    } else {
        let (d1, o1) = run(d, s.drop_last());
        let (d2, o2) = step(d1, s.last());
        (d2, o1 + o2)
    }
}

impl State {
    pub fn is_idle(&self) -> (r: bool)
        ensures
            r == (*self is Idle),
    {
        match self {
            State::Idle => true,
            _ => false,
        }
    }

    /// The events that settling this state emits, position before size.
    pub fn pending(&self) -> (r: Vec<Event>)
        ensures
            r@ == pending_events(*self),
    {
        match *self {
            State::Idle => Vec::new(),
            State::Moving(p) => vec![Event::Moved(p)],
            State::Resizing(z) => vec![Event::Resized(z)],
            State::Both(p, z) => vec![Event::Moved(p), Event::Resized(z)],
        }
    }

    /// This state after observing `e`.
    pub fn absorb(self, e: Event) -> (r: State)
        ensures
            r == absorb(self, e),
    {
        match e {
            Event::Moved(p) => match self {
                State::Idle | State::Moving(_) => State::Moving(p),
                State::Resizing(z) | State::Both(_, z) => State::Both(p, z),
            },
            Event::Resized(z) => match self {
                State::Idle | State::Resizing(_) => State::Resizing(z),
                State::Moving(p) | State::Both(p, _) => State::Both(p, z),
            },
        }
    }
}

impl Debouncer {
    /// An idle machine that settles after `quiet_period` milliseconds without
    /// a relevant event.
    pub fn new(quiet_period: u64) -> (r: Debouncer)
        ensures
            r == fresh(quiet_period),
    {
        Debouncer { quiet_period, state: State::Idle, deadline: 0, ended: false }
    }

    /// Feeds one input to the machine and returns what it emits.
    pub fn handle(&mut self, input: Input) -> (out: Vec<Event>)
        ensures
            (*final(self), out@) == step(*old(self), input),
    {
        if self.ended {
            return Vec::new();
        }
        match input.signal {
            Signal::Other => Vec::new(),
            Signal::End => {
                self.state = State::Idle;
                self.ended = true;
                Vec::new()
            },
            Signal::Tick => {
                if !self.state.is_idle() && input.at >= self.deadline {
                    let out = self.state.pending();
                    self.state = State::Idle;
                    out
                } else {
                    Vec::new()
                }
            },
            Signal::Window(event) => {
                let out = if !self.state.is_idle() && input.at > self.deadline {
                    let out = self.state.pending();
                    self.state = State::Idle;
                    out
                } else {
                    Vec::new()
                };
                self.state = self.state.absorb(event);
                self.deadline = if input.at <= u64::MAX - self.quiet_period {
                    input.at + self.quiet_period
                } else {
                    u64::MAX
                };
                out
            },
        }
    }

    /// Feeds a run of inputs to the machine, in order, and returns all that
    /// it emits.
    pub fn feed(&mut self, inputs: &Vec<Input>) -> (out: Vec<Event>)
        ensures
            (*final(self), out@) == run(*old(self), inputs@),
    {
        let mut out: Vec<Event> = Vec::new();
        let mut i: usize = 0;
        while i < inputs.len()
            invariant
                0 <= i <= inputs@.len(),
                (*self, out@) == run(*old(self), inputs@.subrange(0, i as int)),
            decreases inputs@.len() - i,
        {
            let mut emitted = self.handle(inputs[i]);
            out.append(&mut emitted);
            proof {
                let s = inputs@.subrange(0, i + 1);
                assert(s.drop_last() == inputs@.subrange(0, i as int));
                assert(s.last() == inputs@[i as int]);
            }
            i = i + 1;
        }
        assert(inputs@.subrange(0, inputs@.len() as int) == inputs@);
        out
    }

    /// The instant at which the driver must wake the machine with a tick if
    /// no input comes first; `None` while nothing is pending or once ended.
    pub fn timer(&self) -> (r: Option<u64>)
        ensures
            r == (if self.ended || self.state is Idle { None } else { Some(self.deadline) }),
    {
        if self.ended || self.state.is_idle() {
            None
        } else {
            Some(self.deadline)
        }
    }
}

} // verus!

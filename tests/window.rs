use halloy::window::{Debouncer, Event, Input, Position, Signal, Size, State};

const QUIET: u64 = 500;

fn moved(x: i32, y: i32) -> Event {
    Event::Moved(Position { x, y })
}

fn resized(width: u32, height: u32) -> Event {
    Event::Resized(Size { width, height })
}

fn window(at: u64, event: Event) -> Input {
    Input { at, signal: Signal::Window(event) }
}

fn tick(at: u64) -> Input {
    Input { at, signal: Signal::Tick }
}

fn other(at: u64) -> Input {
    Input { at, signal: Signal::Other }
}

fn end(at: u64) -> Input {
    Input { at, signal: Signal::End }
}

#[test]
fn new_machine_is_idle_without_timer() {
    let d = Debouncer::new(QUIET);
    assert_eq!(d.state, State::Idle);
    assert!(!d.ended);
    assert_eq!(d.timer(), None);
}

#[test]
fn single_move_settles_after_quiet_period() {
    let mut d = Debouncer::new(QUIET);
    assert!(d.handle(window(1000, moved(5, 5))).is_empty());
    assert_eq!(d.timer(), Some(1500));
    assert!(d.handle(tick(1499)).is_empty());
    assert_eq!(d.handle(tick(1500)), vec![moved(5, 5)]);
    assert_eq!(d.state, State::Idle);
    assert_eq!(d.timer(), None);
    assert!(d.handle(tick(5000)).is_empty());
}

#[test]
fn rapid_moves_coalesce_to_last() {
    let mut d = Debouncer::new(QUIET);
    let out = d.feed(&vec![
        window(0, moved(1, 1)),
        window(100, moved(2, 2)),
        window(200, moved(3, 3)),
        tick(700),
    ]);
    assert_eq!(out, vec![moved(3, 3)]);
}

#[test]
fn sliding_window_never_settles_while_active() {
    let mut d = Debouncer::new(QUIET);
    let mut at: u64 = 0;
    for k in 0..200 {
        assert!(d.handle(window(at, moved(k, k))).is_empty());
        assert!(d.handle(tick(at + QUIET - 1)).is_empty());
        at += QUIET - 1;
    }
    assert_eq!(d.state, State::Moving(Position { x: 199, y: 199 }));
    let last = at - (QUIET - 1);
    assert_eq!(d.handle(tick(last + QUIET)), vec![moved(199, 199)]);
}

#[test]
fn event_at_deadline_wins_over_timer() {
    let mut d = Debouncer::new(QUIET);
    assert!(d.handle(window(0, moved(1, 1))).is_empty());
    assert!(d.handle(window(500, moved(2, 2))).is_empty());
    assert_eq!(d.timer(), Some(1000));
    assert_eq!(d.handle(tick(1000)), vec![moved(2, 2)]);
}

#[test]
fn late_event_settles_what_was_pending() {
    let mut d = Debouncer::new(QUIET);
    assert!(d.handle(window(0, moved(1, 1))).is_empty());
    assert_eq!(d.handle(window(501, resized(10, 20))), vec![moved(1, 1)]);
    assert_eq!(d.state, State::Resizing(Size { width: 10, height: 20 }));
    assert_eq!(d.handle(tick(1001)), vec![resized(10, 20)]);
}

#[test]
fn cross_axis_promotion_emits_both_in_order() {
    let mut d = Debouncer::new(QUIET);
    let out = d.feed(&vec![window(0, moved(1, 1)), window(100, resized(10, 20)), tick(600)]);
    assert_eq!(out, vec![moved(1, 1), resized(10, 20)]);
}

#[test]
fn resize_then_move_promotes_too() {
    let mut d = Debouncer::new(QUIET);
    let out = d.feed(&vec![window(0, resized(10, 20)), window(100, moved(1, 1)), tick(600)]);
    assert_eq!(out, vec![moved(1, 1), resized(10, 20)]);
}

#[test]
fn both_pending_move_keeps_size() {
    let mut d = Debouncer::new(QUIET);
    let out = d.feed(&vec![
        window(0, moved(1, 1)),
        window(100, resized(10, 20)),
        window(200, moved(7, 8)),
        tick(700),
    ]);
    assert_eq!(out, vec![moved(7, 8), resized(10, 20)]);
}

#[test]
fn both_pending_resize_keeps_position() {
    let mut d = Debouncer::new(QUIET);
    let out = d.feed(&vec![
        window(0, moved(1, 1)),
        window(100, resized(10, 20)),
        window(200, resized(30, 40)),
        tick(700),
    ]);
    assert_eq!(out, vec![moved(1, 1), resized(30, 40)]);
}

#[test]
fn other_events_change_nothing() {
    let mut d = Debouncer::new(QUIET);
    assert!(d.handle(other(0)).is_empty());
    assert_eq!(d, Debouncer::new(QUIET));
    assert!(d.handle(window(10, moved(4, 4))).is_empty());
    let before = d;
    assert!(d.handle(other(400)).is_empty());
    assert_eq!(d, before);
    assert_eq!(d.timer(), Some(510));
    assert_eq!(d.handle(tick(510)), vec![moved(4, 4)]);
}

#[test]
fn end_drops_pending_state() {
    let mut d = Debouncer::new(QUIET);
    let out = d.feed(&vec![
        window(0, moved(1, 1)),
        window(10, resized(2, 2)),
        end(20),
        tick(1000),
        window(1001, moved(3, 3)),
        tick(5000),
    ]);
    assert!(out.is_empty());
    assert!(d.ended);
    assert_eq!(d.timer(), None);
}

#[test]
fn end_while_idle_stops_machine() {
    let mut d = Debouncer::new(QUIET);
    assert!(d.handle(end(0)).is_empty());
    assert!(d.ended);
    assert!(d.handle(window(1, moved(1, 1))).is_empty());
    assert_eq!(d.state, State::Idle);
}

#[test]
fn deadline_saturates_at_largest_instant() {
    let mut d = Debouncer::new(QUIET);
    assert!(d.handle(window(u64::MAX - 10, moved(1, 1))).is_empty());
    assert_eq!(d.timer(), Some(u64::MAX));
    assert_eq!(d.handle(tick(u64::MAX)), vec![moved(1, 1)]);
}

#[test]
fn zero_quiet_period_settles_on_first_tick() {
    let mut d = Debouncer::new(0);
    assert!(d.handle(window(42, resized(800, 600))).is_empty());
    assert_eq!(d.handle(tick(42)), vec![resized(800, 600)]);
}

#[test]
fn state_helpers() {
    assert!(State::Idle.is_idle());
    assert!(!State::Moving(Position { x: 0, y: 0 }).is_idle());
    let both = State::Both(Position { x: 1, y: 2 }, Size { width: 3, height: 4 });
    assert_eq!(both.pending(), vec![moved(1, 2), resized(3, 4)]);
    assert_eq!(State::Idle.pending(), vec![]);
    assert_eq!(State::Idle.absorb(moved(1, 2)), State::Moving(Position { x: 1, y: 2 }));
    assert_eq!(
        State::Moving(Position { x: 1, y: 2 }).absorb(resized(3, 4)),
        both
    );
    assert_eq!(
        both.absorb(moved(5, 6)),
        State::Both(Position { x: 5, y: 6 }, Size { width: 3, height: 4 })
    );
}

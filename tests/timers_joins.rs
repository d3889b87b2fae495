use robotica_node_rust::stream::RxPipe;
use robotica_node_rust::timers::{Timer, TimerKind};
use robotica_node_rust::{is_insecure, requires_plugin};

fn pipe<T>(start: u64, end: u64, items: Vec<(u64, T)>) -> RxPipe<T> {
    let mut p = RxPipe::new(start, end);
    for (at, v) in items {
        p.send(at, v);
    }
    p
}

fn pairs<T: Clone>(p: &RxPipe<T>) -> Vec<(u64, T)> {
    p.items.iter().map(|t| (t.at, t.value.clone())).collect()
}

#[test]
fn delay_true_short_pulse_never_true() {
    let mut p = pipe(0, 10_000, vec![(0, true), (1000, false)]);
    let d = p.delay_true(2000);
    assert_eq!(pairs(&d), vec![(1000, false)]);
    assert!(d.items.iter().all(|t| !t.value));
}

#[test]
fn delay_true_held_true_emits_once_at_delay() {
    let mut p = pipe(0, 10_000, vec![(0, true), (3000, false)]);
    let d = p.delay_true(2000);
    assert_eq!(pairs(&d), vec![(2000, true), (3000, false)]);
    assert_eq!(d.items.iter().filter(|t| t.value).count(), 1);
}

#[test]
fn delay_true_held_until_closure() {
    let mut p = pipe(0, 3000, vec![(0, true)]);
    assert_eq!(pairs(&p.delay_true(2000)), vec![(2000, true)]);
}

#[test]
fn delay_true_pending_dropped_at_closure() {
    let mut p = pipe(0, 1500, vec![(0, true)]);
    assert_eq!(p.delay_true(2000).len(), 0);
}

#[test]
fn delay_cancel_holds_true_through_blip() {
    let mut p = pipe(0, 10_000, vec![(0, true), (1000, false), (1500, true), (4000, false)]);
    let d = p.delay_cancel(2000);
    assert_eq!(pairs(&d), vec![(0, true), (1500, true), (6000, false)]);
}

#[test]
fn timer_true_repeats_while_true() {
    let mut p = pipe(0, 25_000, vec![(0, true)]);
    let t = p.timer_true(10_000);
    assert_eq!(pairs(&t), vec![(0, true), (10_000, true), (20_000, true)]);
}

#[test]
fn timer_true_stops_after_false() {
    let mut p = pipe(0, 60_000, vec![(0, true), (25_000, false)]);
    let t = p.timer_true(10_000);
    assert_eq!(
        pairs(&t),
        vec![(0, true), (10_000, true), (20_000, true), (25_000, false)]
    );
}

#[test]
fn timer_on_deadline_steps() {
    let mut t = Timer::new(TimerKind::TimerTrue, 100);
    assert_eq!(t.on_input(5, true), Some(true));
    assert_eq!(t.deadline, Some(105));
    assert!(t.on_deadline());
    assert_eq!(t.deadline, Some(205));
    assert_eq!(t.on_input(150, false), Some(false));
    assert_eq!(t.deadline, None);
}

#[test]
fn timer_fire_due_collects_all_reached() {
    let mut t = Timer::new(TimerKind::TimerTrue, 10);
    t.on_input(0, true);
    let mut out = Vec::new();
    t.fire_due(35, &mut out);
    let got: Vec<(u64, bool)> = out.iter().map(|x| (x.at, x.value)).collect();
    assert_eq!(got, vec![(10, true), (20, true), (30, true)]);
    assert_eq!(t.deadline, Some(40));
}

fn plugin(level: usize, plugged: bool, geofence: &str, reminder: bool) -> Vec<(u64, bool)> {
    let b = pipe(0, 100, vec![(1, level)]);
    let p = pipe(0, 100, vec![(2, plugged)]);
    let g = pipe(0, 100, vec![(3, geofence.to_string())]);
    let r = pipe(0, 100, vec![(4, reminder)]);
    pairs(&requires_plugin(b, p, g, r))
}

#[test]
fn requires_plugin_low_battery_unplugged_home() {
    assert_eq!(plugin(74, false, "Home", true), vec![(4, true)]);
}

#[test]
fn requires_plugin_battery_at_threshold() {
    assert_eq!(plugin(75, false, "Home", true), vec![(4, false)]);
}

#[test]
fn requires_plugin_already_plugged() {
    assert_eq!(plugin(74, true, "Home", true), vec![(4, false)]);
}

#[test]
fn requires_plugin_away_or_no_reminder() {
    assert_eq!(plugin(10, false, "Work", true), vec![(4, false)]);
    assert_eq!(plugin(10, false, "Home", false), vec![(4, false)]);
}

#[test]
fn requires_plugin_silent_until_all_known() {
    let b = pipe(0, 100, vec![(1, 50usize), (2, 60), (9, 70)]);
    let p = pipe(0, 100, vec![(3, false)]);
    let g = pipe(0, 100, vec![(4, "Home".to_string())]);
    let r: RxPipe<bool> = pipe(0, 100, vec![]);
    assert_eq!(requires_plugin(b, p, g, r).len(), 0);
}

#[test]
fn requires_plugin_emits_on_every_update_once_known() {
    let b = pipe(0, 100, vec![(1, 50usize), (10, 80), (20, 60)]);
    let p = pipe(0, 100, vec![(2, false)]);
    let g = pipe(0, 100, vec![(3, "Home".to_string())]);
    let r = pipe(0, 100, vec![(5, true), (15, true)]);
    let out = requires_plugin(b, p, g, r);
    assert_eq!(
        pairs(&out),
        vec![(5, true), (10, false), (15, false), (20, true)]
    );
    assert_eq!(out.start, 0);
    assert_eq!(out.end, 100);
}

fn insecure(present: bool, locked: bool) -> Vec<(u64, bool)> {
    let p = pipe(0, 10, vec![(1, present)]);
    let l = pipe(0, 10, vec![(2, locked)]);
    pairs(&is_insecure(p, l))
}

#[test]
fn is_insecure_truth_table() {
    assert_eq!(insecure(false, false), vec![(2, true)]);
    assert_eq!(insecure(true, false), vec![(2, false)]);
    assert_eq!(insecure(false, true), vec![(2, false)]);
    assert_eq!(insecure(true, true), vec![(2, false)]);
}

#[test]
fn is_insecure_silent_until_both_known() {
    let p = pipe(0, 10, vec![(1, false), (2, false)]);
    let l: RxPipe<bool> = pipe(0, 10, vec![]);
    assert_eq!(is_insecure(p, l).len(), 0);
}

#[test]
fn insecure_chain_debounced() {
    let p = pipe(0, 1_000_000, vec![(0, false)]);
    let l = pipe(0, 1_000_000, vec![(0, true), (1000, false), (2000, true), (10_000, false)]);
    let mut s = is_insecure(p, l);
    let mut c = s.diff().changed();
    let d = c.delay_true(120_000);
    assert_eq!(
        pairs(&d),
        vec![(0, false), (2000, false), (130_000, true)]
    );
}

use robotica_node_rust::stream::RxPipe;

fn pipe<T>(start: u64, end: u64, items: Vec<(u64, T)>) -> RxPipe<T> {
    let mut p = RxPipe::new(start, end);
    for (at, v) in items {
        p.send(at, v);
    }
    p
}

fn pairs<T: Clone>(p: &RxPipe<T>) -> Vec<(u64, T)> {
    p.items.iter().map(|t| (t.at, t.value.clone())).collect()
}

#[test]
fn diff_pairs_each_value_with_previous() {
    let mut p = pipe(0, 100, vec![(1, 10u64), (2, 20), (3, 30)]);
    let d = p.diff();
    assert_eq!(
        pairs(&d),
        vec![(1, (None, 10)), (2, (Some(10), 20)), (3, (Some(20), 30))]
    );
    assert_eq!(d.start, 0);
    assert_eq!(d.end, 100);
}

#[test]
fn diff_with_initial_value_seeds_first_pair() {
    let mut p = pipe(0, 100, vec![(5, true), (6, false)]);
    let d = p.diff_with_initial_value(Some(false));
    assert_eq!(pairs(&d), vec![(5, (Some(false), true)), (6, (Some(true), false))]);
}

#[test]
fn diff_of_empty_stream_is_empty() {
    let mut p: RxPipe<u64> = pipe(0, 5, vec![]);
    assert_eq!(p.diff().len(), 0);
}

#[test]
fn changed_emits_only_changes_in_order() {
    let mut p = pipe(
        0,
        100,
        vec![(1, 1u64), (2, 1), (3, 2), (4, 2), (5, 1), (6, 3)],
    );
    let c = p.diff().changed();
    assert_eq!(pairs(&c), vec![(1, 1), (3, 2), (5, 1), (6, 3)]);
}

#[test]
fn changed_passes_first_of_seeded_diff_only_if_different() {
    let mut p = pipe(0, 100, vec![(1, true), (2, true), (3, false)]);
    let c = p.diff_with_initial_value(Some(true)).changed();
    assert_eq!(pairs(&c), vec![(3, false)]);
}

#[test]
fn changed_on_strings() {
    let mut p = pipe(
        0,
        100,
        vec![(1, "Home".to_string()), (2, "Home".to_string()), (3, "".to_string())],
    );
    let c = p.diff().changed();
    assert_eq!(pairs(&c), vec![(1, "Home".to_string()), (3, "".to_string())]);
}

#[test]
fn map_applies_callback_to_every_value() {
    let mut p = pipe(0, 10, vec![(1, 2u64), (4, 5)]);
    let m = p.map(|v| v * 10);
    assert_eq!(pairs(&m), vec![(1, 20), (4, 50)]);
}

#[test]
fn map_with_state_threads_state() {
    let mut p = pipe(0, 10, vec![(1, 2u64), (2, 3), (3, 4)]);
    let m = p.map_with_state(100u64, |total, v| (total + v, total + v));
    assert_eq!(pairs(&m), vec![(1, 102), (2, 105), (3, 109)]);
}

#[test]
fn filter_keeps_matching_values() {
    let mut p = pipe(0, 10, vec![(1, 1u64), (2, 2), (3, 3), (4, 4)]);
    let f = p.filter(|v| v % 2 == 0);
    assert_eq!(pairs(&f), vec![(2, 2), (4, 4)]);
}

#[test]
fn filter_map_drops_absent_results() {
    let mut p = pipe(
        0,
        10,
        vec![(1, "7".to_string()), (2, "x".to_string()), (3, "42".to_string())],
    );
    let f = p.filter_map(|s| s.parse::<u64>().ok());
    assert_eq!(pairs(&f), vec![(1, 7), (3, 42)]);
}

#[test]
fn debug_passes_through() {
    let mut p = pipe(0, 10, vec![(1, 1u64), (2, 2)]);
    let d = p.debug("label");
    assert_eq!(pairs(&d), vec![(1, 1), (2, 2)]);
}

#[test]
fn gate_closed_until_first_true() {
    let mut values = pipe(0, 100, vec![(1, 1u64), (5, 2), (12, 3), (20, 4), (30, 5)]);
    let gate = pipe(0, 100, vec![(3, false), (10, true), (25, false)]);
    let g = values.gate(gate);
    assert_eq!(pairs(&g), vec![(12, 3), (20, 4)]);
}

#[test]
fn gate_without_gate_values_passes_nothing() {
    let mut values = pipe(0, 100, vec![(1, 1u64), (5, 2)]);
    let gate: RxPipe<bool> = pipe(0, 100, vec![]);
    assert_eq!(values.gate(gate).len(), 0);
}

#[test]
fn gate_value_at_same_time_as_gate_sees_old_gate() {
    let mut values = pipe(0, 100, vec![(10, 1u64), (11, 2)]);
    let gate = pipe(0, 100, vec![(10, true)]);
    assert_eq!(pairs(&values.gate(gate)), vec![(11, 2)]);
}

#[test]
fn copy_to_interleaves_by_time() {
    let mut a = pipe(0, 100, vec![(1, 1u64), (5, 5), (9, 9)]);
    let mut out = pipe(0, 100, vec![(2, 2u64), (5, 50), (7, 7)]);
    a.copy_to(&mut out);
    assert_eq!(
        pairs(&out),
        vec![(1, 1), (2, 2), (5, 50), (5, 5), (7, 7), (9, 9)]
    );
}

#[test]
fn split2_gives_two_identical_readers() {
    let p = pipe(0, 10, vec![(1, 1u64), (2, 2)]);
    let (mut a, mut b) = p.split2();
    let da = a.diff();
    let mb = b.map(|v| v + 1);
    assert_eq!(pairs(&da), vec![(1, (None, 1)), (2, (Some(1), 2))]);
    assert_eq!(pairs(&mb), vec![(1, 2), (2, 3)]);
}

#[test]
fn startup_delay_sends_seed_when_nothing_arrives() {
    let mut p: RxPipe<bool> = pipe(100, 10_000, vec![]);
    let s = p.startup_delay(1000, false);
    assert_eq!(pairs(&s), vec![(1100, false)]);
}

#[test]
fn startup_delay_seed_then_late_values() {
    let mut p = pipe(0, 10_000, vec![(5000, true)]);
    let s = p.startup_delay(1000, false);
    assert_eq!(pairs(&s), vec![(1000, false), (5000, true)]);
}

#[test]
fn startup_delay_cancelled_by_early_value() {
    let mut p = pipe(0, 10_000, vec![(500, true), (2000, false)]);
    let s = p.startup_delay(1000, false);
    assert_eq!(pairs(&s), vec![(500, true), (2000, false)]);
}

#[test]
fn startup_delay_not_sent_after_closure() {
    let mut p: RxPipe<bool> = pipe(0, 500, vec![]);
    assert_eq!(p.startup_delay(1000, false).len(), 0);
}

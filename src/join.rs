use vstd::prelude::*;

use crate::payload::Payload;
use crate::stream::{lemma_merge_within, merge, merge_items, within, RxPipe, Timed};

verus! {

/// Whether the car needs plugging in, given the latest value of each input.
pub open spec fn plugin_rule(battery_level: usize, plugged_in: bool, geofence: Seq<char>, reminder: bool) -> bool {
    battery_level < 75 && !plugged_in && geofence == "Home"@ && reminder
}

/// Whether the car is insecure, given the latest value of each input.
pub open spec fn insecure_rule(is_user_present: bool, locked: bool) -> bool {
    !is_user_present && !locked
}

/// One update on one of the inputs of `requires_plugin`.
pub enum PluginUpdate {
    BatteryLevel(usize),
    PluggedIn(bool),
    Geofence(String),
    Reminder(bool),
}

impl Payload for PluginUpdate {
    fn duplicate(&self) -> (r: PluginUpdate) {
        match self {
            PluginUpdate::BatteryLevel(v) => PluginUpdate::BatteryLevel(*v),
            PluginUpdate::PluggedIn(v) => PluginUpdate::PluggedIn(*v),
            PluginUpdate::Geofence(v) => PluginUpdate::Geofence(v.clone()),
            PluginUpdate::Reminder(v) => PluginUpdate::Reminder(*v),
        }
    }
}

/// The last known value of each input of `requires_plugin`.
pub struct PluginInputs {
    pub battery_level: Option<usize>,
    pub plugged_in: Option<bool>,
    pub geofence: Option<String>,
    pub reminder: Option<bool>,
}

/// The inputs after `u`: its slot takes the new value.
pub open spec fn plugin_apply(s: PluginInputs, u: PluginUpdate) -> PluginInputs {
    match u {
        PluginUpdate::BatteryLevel(v) => PluginInputs { battery_level: Some(v), ..s },
        PluginUpdate::PluggedIn(v) => PluginInputs { plugged_in: Some(v), ..s },
        PluginUpdate::Geofence(v) => PluginInputs { geofence: Some(v), ..s },
        PluginUpdate::Reminder(v) => PluginInputs { reminder: Some(v), ..s },
    }
}

/// The judgement on the inputs: none while any of them is unknown.
pub open spec fn plugin_judgement(s: PluginInputs) -> Option<bool> {
    match (s.battery_level, s.plugged_in, s.geofence, s.reminder) {
        (Some(l), Some(p), Some(g), Some(r)) => Some(plugin_rule(l, p, g@, r)),
        _ => None,
    }
}

/// The inputs after a sequence of updates, starting from all unknown.
pub open spec fn plugin_state(ev: Seq<Timed<PluginUpdate>>) -> PluginInputs
    decreases ev.len(),
{
    if ev.len() == 0 {
        PluginInputs { battery_level: None, plugged_in: None, geofence: None, reminder: None }
    } else {
        plugin_apply(plugin_state(ev.drop_last()), ev.last().value)
    }
}

/// What `requires_plugin` sends for a sequence of updates: after each, the
/// judgement, if there is one, at the time of the update.
pub open spec fn plugin_outputs(ev: Seq<Timed<PluginUpdate>>) -> Seq<Timed<bool>>
    decreases ev.len(),
{
    if ev.len() == 0 {
        Seq::empty()
    } else {
        let rest = plugin_outputs(ev.drop_last());
        match plugin_judgement(plugin_state(ev)) {
            Some(b) => rest.push(Timed { at: ev.last().at, value: b }),
            None => rest,
        }
    }
}

/// A history of one input, each value tagged with the input it came from.
pub open spec fn tagged<T, U>(s: Seq<Timed<T>>, tag: spec_fn(T) -> U) -> Seq<Timed<U>> {
    Seq::new(s.len(), |i: int| Timed { at: s[i].at, value: tag(s[i].value) })
}

/// All updates of the four inputs of `requires_plugin`, interleaved by time;
/// at equal times, in the order of the inputs.
pub open spec fn plugin_events(
    battery_level: Seq<Timed<usize>>,
    plugged_in: Seq<Timed<bool>>,
    geofence: Seq<Timed<String>>,
    reminder: Seq<Timed<bool>>,
) -> Seq<Timed<PluginUpdate>> {
    merge(
        merge(
            merge(
                tagged(battery_level, |v: usize| PluginUpdate::BatteryLevel(v)),
                tagged(plugged_in, |v: bool| PluginUpdate::PluggedIn(v)),
            ),
            tagged(geofence, |v: String| PluginUpdate::Geofence(v)),
        ),
        tagged(reminder, |v: bool| PluginUpdate::Reminder(v)),
    )
}

impl PluginInputs {
    /// All inputs unknown.
    pub fn new() -> (r: PluginInputs)
        ensures
            r == plugin_state(Seq::empty()),
    {
        PluginInputs { battery_level: None, plugged_in: None, geofence: None, reminder: None }
    }

    /// Takes in one update and gives the judgement on the inputs after it.
    pub fn update(&mut self, u: PluginUpdate) -> (r: Option<bool>)
        ensures
            *final(self) == plugin_apply(*old(self), u),
            r == plugin_judgement(*final(self)),
    {
        match u {
            PluginUpdate::BatteryLevel(v) => self.battery_level = Some(v),
            PluginUpdate::PluggedIn(v) => self.plugged_in = Some(v),
            PluginUpdate::Geofence(v) => self.geofence = Some(v),
            PluginUpdate::Reminder(v) => self.reminder = Some(v),
        }
        match (&self.battery_level, &self.plugged_in, &self.geofence, &self.reminder) {
            (Some(l), Some(p), Some(g), Some(r)) => {
                let home = "Home".to_owned();
                proof {
                    reveal_strlit("Home");
                }
                Some(*l < 75 && !*p && *g == home && *r)
            },
            _ => None,
        }
    }
}

/// Runs the `requires_plugin` judgement over a sequence of updates.
pub fn plugin_run(events: &Vec<Timed<PluginUpdate>>) -> (r: Vec<Timed<bool>>)
    ensures
        r@ == plugin_outputs(events@),
{
    let mut state = PluginInputs::new();
    let mut out: Vec<Timed<bool>> = Vec::new();
    let n = events.len();
    for i in 0..n
        invariant
            n == events@.len(),
            state == plugin_state(events@.subrange(0, i as int)),
            out@ == plugin_outputs(events@.subrange(0, i as int)),
    {
        let ghost pre = events@.subrange(0, i + 1);
        assert(pre.drop_last() =~= events@.subrange(0, i as int));
        let e = &events[i];
        if let Some(b) = state.update(e.value.duplicate()) {
            out.push(Timed { at: e.at, value: b });
        }
    }
    assert(events@.subrange(0, n as int) =~= events@);
    out
}

/// Every judgement is sent at the time of some update.
proof fn lemma_plugin_outputs_within(ev: Seq<Timed<PluginUpdate>>, lo: u64, hi: u64)
    requires
        within(ev, lo, hi),
    ensures
        within(plugin_outputs(ev), lo, hi),
    decreases ev.len(),
{
    if ev.len() > 0 {
        lemma_plugin_outputs_within(ev.drop_last(), lo, hi);
    }
}

/// Whether the car needs plugging in: after each update on any input, once
/// every input has been seen, sends the judgement on the latest values.
pub fn requires_plugin(
    mut battery_level: RxPipe<usize>,
    mut plugged_in: RxPipe<bool>,
    mut geofence: RxPipe<String>,
    mut reminder: RxPipe<bool>,
) -> (r: RxPipe<bool>)
    requires
        battery_level.wf(),
        plugged_in.wf(),
        geofence.wf(),
        reminder.wf(),
    ensures
        r.wf(),
        r.start == min4(battery_level.start, plugged_in.start, geofence.start, reminder.start),
        r.end == max4(battery_level.end, plugged_in.end, geofence.end, reminder.end),
        r.items@ == plugin_outputs(
            plugin_events(battery_level.items@, plugged_in.items@, geofence.items@, reminder.items@),
        ),
{
    let ghost (b0, p0, g0, r0) = (battery_level, plugged_in, geofence, reminder);
    let b = battery_level.map(|v: usize| -> (u: PluginUpdate)
        ensures
            u == PluginUpdate::BatteryLevel(v),
        { PluginUpdate::BatteryLevel(v) });
    let p = plugged_in.map(|v: bool| -> (u: PluginUpdate)
        ensures
            u == PluginUpdate::PluggedIn(v),
        { PluginUpdate::PluggedIn(v) });
    let g = geofence.map(|v: String| -> (u: PluginUpdate)
        ensures
            u == PluginUpdate::Geofence(v),
        { PluginUpdate::Geofence(v) });
    let q = reminder.map(|v: bool| -> (u: PluginUpdate)
        ensures
            u == PluginUpdate::Reminder(v),
        { PluginUpdate::Reminder(v) });
    assert(b.items@ =~= tagged(b0.items@, |v: usize| PluginUpdate::BatteryLevel(v)));
    assert(p.items@ =~= tagged(p0.items@, |v: bool| PluginUpdate::PluggedIn(v)));
    assert(g.items@ =~= tagged(g0.items@, |v: String| PluginUpdate::Geofence(v)));
    assert(q.items@ =~= tagged(r0.items@, |v: bool| PluginUpdate::Reminder(v)));
    let start = min_u64(min_u64(b.start, p.start), min_u64(g.start, q.start));
    let end = max_u64(max_u64(b.end, p.end), max_u64(g.end, q.end));
    let bp = merge_items(&b.items, &p.items);
    let bpg = merge_items(&bp, &g.items);
    let events = merge_items(&bpg, &q.items);
    proof {
        lemma_merge_within(b.items@, p.items@, start, end);
        lemma_merge_within(bp@, g.items@, start, end);
        lemma_merge_within(bpg@, q.items@, start, end);
        lemma_plugin_outputs_within(events@, start, end);
    }
    let items = plugin_run(&events);
    RxPipe { start, end, items }
}

/// Nothing is sent while some input of `requires_plugin` has never been
/// seen: if after a sequence of updates some slot is still unknown, the
/// sequence produced no output at all.
pub proof fn lemma_plugin_silent_until_known(ev: Seq<Timed<PluginUpdate>>)
    requires
        plugin_judgement(plugin_state(ev)) is None,
    ensures
        plugin_outputs(ev).len() == 0,
    decreases ev.len(),
{
    if ev.len() > 0 {
        let pre = plugin_state(ev.drop_last());
        assert(plugin_judgement(pre) is None);
        lemma_plugin_silent_until_known(ev.drop_last());
    }
}

/// One update on one of the inputs of `is_insecure`.
pub enum InsecureUpdate {
    UserPresent(bool),
    Locked(bool),
}

impl Payload for InsecureUpdate {
    fn duplicate(&self) -> (r: InsecureUpdate) {
        match self {
            InsecureUpdate::UserPresent(v) => InsecureUpdate::UserPresent(*v),
            InsecureUpdate::Locked(v) => InsecureUpdate::Locked(*v),
        }
    }
}

/// The last known value of each input of `is_insecure`.
pub struct InsecureInputs {
    pub is_user_present: Option<bool>,
    pub locked: Option<bool>,
}

/// The inputs after `u`: its slot takes the new value.
pub open spec fn insecure_apply(s: InsecureInputs, u: InsecureUpdate) -> InsecureInputs {
    match u {
        InsecureUpdate::UserPresent(v) => InsecureInputs { is_user_present: Some(v), ..s },
        InsecureUpdate::Locked(v) => InsecureInputs { locked: Some(v), ..s },
    }
}

/// The judgement on the inputs: none while either of them is unknown.
pub open spec fn insecure_judgement(s: InsecureInputs) -> Option<bool> {
    match (s.is_user_present, s.locked) {
        (Some(p), Some(l)) => Some(insecure_rule(p, l)),
        _ => None,
    }
}

/// The inputs after a sequence of updates, starting from both unknown.
pub open spec fn insecure_state(ev: Seq<Timed<InsecureUpdate>>) -> InsecureInputs
    decreases ev.len(),
{
    if ev.len() == 0 {
        InsecureInputs { is_user_present: None, locked: None }
    } else {
        insecure_apply(insecure_state(ev.drop_last()), ev.last().value)
    }
}

/// What `is_insecure` sends for a sequence of updates: after each, the
/// judgement, if there is one, at the time of the update.
pub open spec fn insecure_outputs(ev: Seq<Timed<InsecureUpdate>>) -> Seq<Timed<bool>>
    decreases ev.len(),
{
    if ev.len() == 0 {
        Seq::empty()
    } else {
        let rest = insecure_outputs(ev.drop_last());
        match insecure_judgement(insecure_state(ev)) {
            Some(b) => rest.push(Timed { at: ev.last().at, value: b }),
            None => rest,
        }
    }
}

/// All updates of the two inputs of `is_insecure`, interleaved by time; at
/// equal times, presence first.
pub open spec fn insecure_events(is_user_present: Seq<Timed<bool>>, locked: Seq<Timed<bool>>) -> Seq<Timed<InsecureUpdate>> {
    merge(
        tagged(is_user_present, |v: bool| InsecureUpdate::UserPresent(v)),
        tagged(locked, |v: bool| InsecureUpdate::Locked(v)),
    )
}

impl InsecureInputs {
    /// Both inputs unknown.
    pub fn new() -> (r: InsecureInputs)
        ensures
            r == insecure_state(Seq::empty()),
    {
        InsecureInputs { is_user_present: None, locked: None }
    }

    /// Takes in one update and gives the judgement on the inputs after it.
    pub fn update(&mut self, u: InsecureUpdate) -> (r: Option<bool>)
        ensures
            *final(self) == insecure_apply(*old(self), u),
            r == insecure_judgement(*final(self)),
    {
        match u {
            InsecureUpdate::UserPresent(v) => self.is_user_present = Some(v),
            InsecureUpdate::Locked(v) => self.locked = Some(v),
        }
        match (self.is_user_present, self.locked) {
            (Some(p), Some(l)) => Some(!p && !l),
            _ => None,
        }
    }
}

/// Runs the `is_insecure` judgement over a sequence of updates.
pub fn insecure_run(events: &Vec<Timed<InsecureUpdate>>) -> (r: Vec<Timed<bool>>)
    ensures
        r@ == insecure_outputs(events@),
{
    let mut state = InsecureInputs::new();
    let mut out: Vec<Timed<bool>> = Vec::new();
    let n = events.len();
    for i in 0..n
        invariant
            n == events@.len(),
            state == insecure_state(events@.subrange(0, i as int)),
            out@ == insecure_outputs(events@.subrange(0, i as int)),
    {
        let ghost pre = events@.subrange(0, i + 1);
        assert(pre.drop_last() =~= events@.subrange(0, i as int));
        let e = &events[i];
        if let Some(b) = state.update(e.value.duplicate()) {
            out.push(Timed { at: e.at, value: b });
        }
    }
    assert(events@.subrange(0, n as int) =~= events@);
    out
}

/// Every judgement is sent at the time of some update.
proof fn lemma_insecure_outputs_within(ev: Seq<Timed<InsecureUpdate>>, lo: u64, hi: u64)
    requires
        within(ev, lo, hi),
    ensures
        within(insecure_outputs(ev), lo, hi),
    decreases ev.len(),
{
    if ev.len() > 0 {
        lemma_insecure_outputs_within(ev.drop_last(), lo, hi);
    }
}

/// Nothing is sent while an input of `is_insecure` has never been seen.
pub proof fn lemma_insecure_silent_until_known(ev: Seq<Timed<InsecureUpdate>>)
    requires
        insecure_judgement(insecure_state(ev)) is None,
    ensures
        insecure_outputs(ev).len() == 0,
    decreases ev.len(),
{
    if ev.len() > 0 {
        assert(insecure_judgement(insecure_state(ev.drop_last())) is None);
        lemma_insecure_silent_until_known(ev.drop_last());
    }
}

/// Whether the car is insecure: after each update on either input, once
/// both have been seen, sends whether nobody is present and it is unlocked.
pub fn is_insecure(mut is_user_present: RxPipe<bool>, mut locked: RxPipe<bool>) -> (r: RxPipe<bool>)
    requires
        is_user_present.wf(),
        locked.wf(),
    ensures
        r.wf(),
        r.start == min_spec(is_user_present.start, locked.start),
        r.end == max_spec(is_user_present.end, locked.end),
        r.items@ == insecure_outputs(insecure_events(is_user_present.items@, locked.items@)),
{
    let ghost (p0, l0) = (is_user_present, locked);
    let p = is_user_present.map(|v: bool| -> (u: InsecureUpdate)
        ensures
            u == InsecureUpdate::UserPresent(v),
        { InsecureUpdate::UserPresent(v) });
    let l = locked.map(|v: bool| -> (u: InsecureUpdate)
        ensures
            u == InsecureUpdate::Locked(v),
        { InsecureUpdate::Locked(v) });
    assert(p.items@ =~= tagged(p0.items@, |v: bool| InsecureUpdate::UserPresent(v)));
    assert(l.items@ =~= tagged(l0.items@, |v: bool| InsecureUpdate::Locked(v)));
    let start = min_u64(p.start, l.start);
    let end = max_u64(p.end, l.end);
    let events = merge_items(&p.items, &l.items);
    proof {
        lemma_merge_within(p.items@, l.items@, start, end);
        lemma_insecure_outputs_within(events@, start, end);
    }
    let items = insecure_run(&events);
    RxPipe { start, end, items }
}

/// The smaller of four times.
pub open spec fn min4(a: u64, b: u64, c: u64, d: u64) -> u64 {
    min_spec(min_spec(a, b), min_spec(c, d))
}

/// The larger of four times.
pub open spec fn max4(a: u64, b: u64, c: u64, d: u64) -> u64 {
    max_spec(max_spec(a, b), max_spec(c, d))
}

/// The smaller of two times.
pub open spec fn min_spec(a: u64, b: u64) -> u64 {
    if a <= b { a } else { b }
}

/// The larger of two times.
pub open spec fn max_spec(a: u64, b: u64) -> u64 {
    if a >= b { a } else { b }
}

fn min_u64(a: u64, b: u64) -> (r: u64)
    ensures
        r == min_spec(a, b),
{
    if a <= b { a } else { b }
}

fn max_u64(a: u64, b: u64) -> (r: u64)
    ensures
        r == max_spec(a, b),
{
    if a >= b { a } else { b }
}

} // verus!

use vstd::prelude::*;

use crate::payload::Payload;
use crate::stream::{within, RxPipe, Timed};

verus! {

/// The three ways a boolean stream can be timed.
#[derive(PartialEq, Eq, Structural, Clone, Copy)]
pub enum TimerKind {
    /// `false` passes at once; `true` passes only once it has held for the
    /// whole duration.
    DelayTrue,
    /// `true` passes at once; `false` passes only once it has held for the
    /// whole duration.
    DelayCancel,
    /// Every value passes at once; while `true` holds, `true` is sent again
    /// after each further duration.
    TimerTrue,
}

/// The next deadline and the value sent when the pending deadline at `x` is
/// reached.
pub open spec fn fire_once(kind: TimerKind, d: u64, x: int) -> (Option<int>, bool) {
    match kind {
        TimerKind::DelayTrue => (None, true),
        TimerKind::DelayCancel => (None, false),
        TimerKind::TimerTrue => (Some(x + d), true),
    }
}

/// The next deadline and the value passed on, if any, when `v` arrives at
/// time `t` while the pending deadline is `s`.
pub open spec fn on_input(kind: TimerKind, d: u64, s: Option<int>, t: u64, v: bool) -> (Option<int>, Option<bool>) {
    match kind {
        TimerKind::DelayTrue => if v {
            (if s is None { Some(t + d) } else { s }, None)
        } else {
            (None, Some(false))
        },
        TimerKind::DelayCancel => if v {
            (None, Some(true))
        } else {
            (if s is None { Some(t + d) } else { s }, None)
        },
        TimerKind::TimerTrue => if v {
            (Some(t + d), Some(true))
        } else {
            (None, Some(false))
        },
    }
}

/// How many deadlines at most are still due by time `t`.
pub open spec fn due_measure(s: Option<int>, t: int) -> nat {
    match s {
        Some(x) => if x <= t { (t - x + 1) as nat } else { 0 },
        None => 0,
    }
}

/// The deadlines reached by time `t`, in order, each with the value it
/// sends; and the deadline pending afterwards.
pub open spec fn fires(kind: TimerKind, d: u64, s: Option<int>, t: int) -> (Option<int>, Seq<Timed<bool>>)
    decreases due_measure(s, t),
{
    match s {
        Some(x) => if x <= t && (kind != TimerKind::TimerTrue || d > 0) {
            let (s1, v) = fire_once(kind, d, x);
            let (s2, rest) = fires(kind, d, s1, t);
            (s2, seq![Timed { at: x as u64, value: v }] + rest)
        } else {
            (s, Seq::empty())
        },
        None => (s, Seq::empty()),
    }
}

/// The pending deadline after a history of input values.
pub open spec fn timer_state(kind: TimerKind, d: u64, s: Seq<Timed<bool>>) -> Option<int>
    decreases s.len(),
{
    if s.len() == 0 {
        None
    } else {
        let e = s.last();
        let (s1, _) = fires(kind, d, timer_state(kind, d, s.drop_last()), e.at as int);
        on_input(kind, d, s1, e.at, e.value).0
    }
}

/// What a timer sends for a history of input values, up to the last of
/// them: for each value, the deadlines reached before it, then what passes
/// of the value itself.
pub open spec fn timer_outputs(kind: TimerKind, d: u64, s: Seq<Timed<bool>>) -> Seq<Timed<bool>>
    decreases s.len(),
{
    if s.len() == 0 {
        Seq::empty()
    } else {
        let e = s.last();
        let (s1, fired) = fires(kind, d, timer_state(kind, d, s.drop_last()), e.at as int);
        timer_outputs(kind, d, s.drop_last()) + fired + passed(e.at, on_input(kind, d, s1, e.at, e.value).1)
    }
}

/// What a timer sends over a whole history that closes at `end`: the
/// deadlines reached by then are honoured; later ones are dropped.
pub open spec fn timer_spec(kind: TimerKind, d: u64, s: Seq<Timed<bool>>, end: u64) -> Seq<Timed<bool>> {
    timer_outputs(kind, d, s) + fires(kind, d, timer_state(kind, d, s), end as int).1
}

/// The decisions of one timing operator: what passes when a value arrives,
/// when the next deadline is, and what is sent when it is reached.
pub struct Timer {
    pub kind: TimerKind,
    pub duration: u64,
    pub deadline: Option<u64>,
}

/// What passes of `v`, as a history item at time `at`.
pub open spec fn passed(at: u64, v: Option<bool>) -> Seq<Timed<bool>> {
    match v {
        Some(b) => seq![Timed { at, value: b }],
        None => Seq::empty(),
    }
}

/// The pending deadline as a mathematical value.
pub open spec fn deadline_of(d: Option<u64>) -> Option<int> {
    match d {
        Some(x) => Some(x as int),
        None => None,
    }
}

impl Timer {
    /// A repeating timer needs a positive duration.
    pub open spec fn wf(&self) -> bool {
        self.kind == TimerKind::TimerTrue ==> self.duration > 0
    }

    /// A timer with nothing pending.
    pub fn new(kind: TimerKind, duration: u64) -> (r: Timer)
        requires
            kind == TimerKind::TimerTrue ==> duration > 0,
        ensures
            r.wf(),
            r.kind == kind,
            r.duration == duration,
            r.deadline is None,
    {
        Timer { kind, duration, deadline: None }
    }

    /// Takes in `v`, arriving at time `now`; gives what passes at once.
    pub fn on_input(&mut self, now: u64, v: bool) -> (r: Option<bool>)
        requires
            old(self).wf(),
            now + old(self).duration <= u64::MAX,
        ensures
            final(self).wf(),
            final(self).kind == old(self).kind,
            final(self).duration == old(self).duration,
            (deadline_of(final(self).deadline), r) == on_input(
                old(self).kind,
                old(self).duration,
                deadline_of(old(self).deadline),
                now,
                v,
            ),
    {
        match self.kind {
            TimerKind::DelayTrue => if v {
                if self.deadline.is_none() {
                    self.deadline = Some(now + self.duration);
                }
                None
            } else {
                self.deadline = None;
                Some(false)
            },
            TimerKind::DelayCancel => if v {
                self.deadline = None;
                Some(true)
            } else {
                if self.deadline.is_none() {
                    self.deadline = Some(now + self.duration);
                }
                None
            },
            TimerKind::TimerTrue => if v {
                self.deadline = Some(now + self.duration);
                Some(true)
            } else {
                self.deadline = None;
                Some(false)
            },
        }
    }

    /// The pending deadline has been reached: gives the value to send.
    pub fn on_deadline(&mut self) -> (r: bool)
        requires
            old(self).wf(),
            old(self).deadline is Some,
            old(self).deadline->0 + old(self).duration <= u64::MAX,
        ensures
            final(self).wf(),
            final(self).kind == old(self).kind,
            final(self).duration == old(self).duration,
            (deadline_of(final(self).deadline), r) == fire_once(
                old(self).kind,
                old(self).duration,
                old(self).deadline->0 as int,
            ),
    {
        let x = self.deadline.unwrap();
        match self.kind {
            TimerKind::DelayTrue => {
                self.deadline = None;
                true
            },
            TimerKind::DelayCancel => {
                self.deadline = None;
                false
            },
            TimerKind::TimerTrue => {
                self.deadline = Some(x + self.duration);
                true
            },
        }
    }

    /// Sends, into `out`, every deadline reached by time `now`.
    pub fn fire_due(&mut self, now: u64, out: &mut Vec<Timed<bool>>)
        requires
            old(self).wf(),
            now + old(self).duration <= u64::MAX,
        ensures
            final(self).wf(),
            final(self).kind == old(self).kind,
            final(self).duration == old(self).duration,
            (deadline_of(final(self).deadline), final(out)@.subrange(
                old(out)@.len() as int,
                final(out)@.len() as int,
            )) == fires(old(self).kind, old(self).duration, deadline_of(old(self).deadline), now as int),
            final(out)@.len() >= old(out)@.len(),
            final(out)@.subrange(0, old(out)@.len() as int) == old(out)@,
            old(self).deadline is None ==> final(self).deadline is None,
            old(self).deadline is Some && final(self).deadline is Some ==> old(self).deadline->0
                <= final(self).deadline->0,
            forall|i: int|
                old(out)@.len() <= i < final(out)@.len() ==> #[trigger] final(out)@[i].at <= now
                    && (old(self).deadline is Some ==> old(self).deadline->0 <= final(out)@[i].at),
    {
        let ghost s0 = deadline_of(self.deadline);
        let ghost x0 = self.deadline;
        let ghost out0 = out@;
        let ghost k = self.kind;
        let ghost d = self.duration;
        assert(out@.subrange(out0.len() as int, out@.len() as int) =~= Seq::<Timed<bool>>::empty());
        loop
            invariant
                self.wf(),
                self.kind == k,
                self.duration == d,
                now + d <= u64::MAX,
                out@.len() >= out0.len(),
                out@.subrange(0, out0.len() as int) == out0,
                fires(k, d, s0, now as int) == (
                    fires(k, d, deadline_of(self.deadline), now as int).0,
                    out@.subrange(out0.len() as int, out@.len() as int) + fires(
                        k,
                        d,
                        deadline_of(self.deadline),
                        now as int,
                    ).1,
                ),
                forall|i: int|
                    out0.len() <= i < out@.len() ==> #[trigger] out@[i].at <= now && (x0 is Some
                        ==> x0->0 <= out@[i].at),
                x0 is Some && self.deadline is Some ==> x0->0 <= self.deadline->0,
                x0 is None ==> self.deadline is None,
            ensures
                self.deadline is None || self.deadline->0 > now,
            decreases due_measure(deadline_of(self.deadline), now as int),
        {
            match self.deadline {
                Some(x) => {
                    if x > now {
                        break;
                    }
                    let ghost before = out@;
                    let v = self.on_deadline();
                    out.push(Timed { at: x, value: v });
                    proof {
                        assert(out@.subrange(0, out0.len() as int) =~= out0);
                        assert(out@.subrange(out0.len() as int, out@.len() as int) =~= before.subrange(
                            out0.len() as int,
                            before.len() as int,
                        ) + seq![Timed { at: x, value: v }]);
                    }
                },
                None => {
                    break;
                },
            }
        }
        proof {
            assert(fires(k, d, deadline_of(self.deadline), now as int).1 =~= Seq::<Timed<bool>>::empty());
        }
    }
}

/// `delay_true` drops a pulse: a `true` at `t` that turns `false` before the
/// duration has passed sends only the `false`.
pub proof fn lemma_delay_true_drops_short_pulse(t: u64, gap: u64, d: u64, end: u64)
    requires
        t + gap <= end,
        gap < d,
    ensures
        timer_spec(
            TimerKind::DelayTrue,
            d,
            seq![Timed { at: t, value: true }, Timed { at: (t + gap) as u64, value: false }],
            end,
        ) == seq![Timed { at: (t + gap) as u64, value: false }],
{
    let s = seq![Timed { at: t, value: true }, Timed { at: (t + gap) as u64, value: false }];
    reveal_with_fuel(timer_outputs, 3);
    reveal_with_fuel(timer_state, 3);
    reveal_with_fuel(fires, 2);
    assert(s.drop_last().drop_last() =~= Seq::<Timed<bool>>::empty());
    assert(timer_state(TimerKind::DelayTrue, d, s.drop_last()) == Some(t + d));
    assert(timer_spec(TimerKind::DelayTrue, d, s, end) =~= seq![Timed { at: (t + gap) as u64, value: false }]);
}

/// `delay_true` passes a held `true`: a `true` at `t` that stays until
/// `gap >= d` later is sent once, `d` after it arrived, then the `false`.
pub proof fn lemma_delay_true_passes_held_true(t: u64, gap: u64, d: u64, end: u64)
    requires
        t + gap <= end,
        d <= gap,
    ensures
        timer_spec(
            TimerKind::DelayTrue,
            d,
            seq![Timed { at: t, value: true }, Timed { at: (t + gap) as u64, value: false }],
            end,
        ) == seq![Timed { at: (t + d) as u64, value: true }, Timed { at: (t + gap) as u64, value: false }],
{
    let s = seq![Timed { at: t, value: true }, Timed { at: (t + gap) as u64, value: false }];
    reveal_with_fuel(timer_outputs, 3);
    reveal_with_fuel(timer_state, 3);
    reveal_with_fuel(fires, 3);
    assert(s.drop_last().drop_last() =~= Seq::<Timed<bool>>::empty());
    assert(timer_state(TimerKind::DelayTrue, d, s.drop_last()) == Some(t + d));
    assert(fires(TimerKind::DelayTrue, d, Some(t + d), (t + gap) as int).1 =~= seq![
        Timed { at: (t + d) as u64, value: true },
    ]);
    assert(timer_spec(TimerKind::DelayTrue, d, s, end) =~= seq![
        Timed { at: (t + d) as u64, value: true },
        Timed { at: (t + gap) as u64, value: false },
    ]);
}

/// `timer_true` reminds: a `true` at `t` that holds until the bus closes
/// between `2d` and `3d` later is sent at once, then again at `t + d` and
/// `t + 2d`.
pub proof fn lemma_timer_true_reminds(t: u64, d: u64, end: u64)
    requires
        d > 0,
        t + 2 * d <= end,
        end < t + 3 * d,
    ensures
        timer_spec(TimerKind::TimerTrue, d, seq![Timed { at: t, value: true }], end) == seq![
            Timed { at: t, value: true },
            Timed { at: (t + d) as u64, value: true },
            Timed { at: (t + 2 * d) as u64, value: true },
        ],
{
    let s = seq![Timed { at: t, value: true }];
    reveal_with_fuel(timer_outputs, 2);
    reveal_with_fuel(timer_state, 2);
    reveal_with_fuel(fires, 4);
    assert(s.drop_last() =~= Seq::<Timed<bool>>::empty());
    assert(timer_state(TimerKind::TimerTrue, d, s) == Some(t + d));
    let f2 = fires(TimerKind::TimerTrue, d, Some(t + 3 * d), end as int);
    assert(f2.1 =~= Seq::<Timed<bool>>::empty());
    let f1 = fires(TimerKind::TimerTrue, d, Some(t + 2 * d), end as int);
    assert(f1.1 =~= seq![Timed { at: (t + 2 * d) as u64, value: true }]);
    let f0 = fires(TimerKind::TimerTrue, d, Some(t + d), end as int);
    assert(f0.1 =~= seq![Timed { at: (t + d) as u64, value: true }, Timed { at: (t + 2 * d) as u64, value: true }]);
    assert(timer_outputs(TimerKind::TimerTrue, d, s) =~= seq![Timed { at: t, value: true }]);
    assert(timer_spec(TimerKind::TimerTrue, d, s, end) =~= seq![
        Timed { at: t, value: true },
        Timed { at: (t + d) as u64, value: true },
        Timed { at: (t + 2 * d) as u64, value: true },
    ]);
}

impl RxPipe<bool> {
    /// Runs a timer of `kind` over the history; deadlines still pending at
    /// closure are dropped.
    pub fn run_timer(&self, kind: TimerKind, duration: u64) -> (r: RxPipe<bool>)
        requires
            self.wf(),
            self.end + duration <= u64::MAX,
            kind == TimerKind::TimerTrue ==> duration > 0,
        ensures
            r.wf(),
            r.same_span(self),
            r.items@ == timer_spec(kind, duration, self.items@, self.end),
    {
        let ghost s = self.items@;
        let mut timer = Timer::new(kind, duration);
        let mut out: Vec<Timed<bool>> = Vec::new();
        let n = self.items.len();
        for i in 0..n
            invariant
                n == s.len(),
                s == self.items@,
                self.wf(),
                self.end + duration <= u64::MAX,
                timer.wf(),
                timer.kind == kind,
                timer.duration == duration,
                deadline_of(timer.deadline) == timer_state(kind, duration, s.subrange(0, i as int)),
                out@ == timer_outputs(kind, duration, s.subrange(0, i as int)),
                within(out@, self.start, self.end),
                timer.deadline is Some ==> self.start <= timer.deadline->0,
        {
            let ghost pre = s.subrange(0, i + 1);
            assert(pre.drop_last() =~= s.subrange(0, i as int));
            let item = &self.items[i];
            let ghost out0 = out@;
            timer.fire_due(item.at, &mut out);
            let ghost out1 = out@;
            let passed_now = timer.on_input(item.at, item.value);
            if let Some(v) = passed_now {
                out.push(Timed { at: item.at, value: v });
            }
            proof {
                assert(out1 =~= out0 + out1.subrange(out0.len() as int, out1.len() as int));
                assert(out@ =~= out1 + passed(item.at, passed_now));
            }
        }
        assert(s.subrange(0, n as int) =~= s);
        let ghost out0 = out@;
        timer.fire_due(self.end, &mut out);
        assert(out@ =~= out0 + out@.subrange(out0.len() as int, out@.len() as int));
        RxPipe { start: self.start, end: self.end, items: out }
    }

    /// Passes `false` at once and `true` only once it has held for
    /// `duration` milliseconds.
    pub fn delay_true(&mut self, duration: u64) -> (r: RxPipe<bool>)
        requires
            old(self).wf(),
            old(self).end + duration <= u64::MAX,
        ensures
            *final(self) == *old(self),
            r.wf(),
            r.same_span(old(self)),
            r.items@ == timer_spec(TimerKind::DelayTrue, duration, old(self).items@, old(self).end),
    {
        self.run_timer(TimerKind::DelayTrue, duration)
    }

    /// Passes `true` at once and `false` only once it has held for
    /// `duration` milliseconds.
    pub fn delay_cancel(&mut self, duration: u64) -> (r: RxPipe<bool>)
        requires
            old(self).wf(),
            old(self).end + duration <= u64::MAX,
        ensures
            *final(self) == *old(self),
            r.wf(),
            r.same_span(old(self)),
            r.items@ == timer_spec(TimerKind::DelayCancel, duration, old(self).items@, old(self).end),
    {
        self.run_timer(TimerKind::DelayCancel, duration)
    }

    /// Passes every value at once and, while `true` holds, sends `true`
    /// again every `duration` milliseconds.
    pub fn timer_true(&mut self, duration: u64) -> (r: RxPipe<bool>)
        requires
            old(self).wf(),
            old(self).end + duration <= u64::MAX,
            duration > 0,
        ensures
            *final(self) == *old(self),
            r.wf(),
            r.same_span(old(self)),
            r.items@ == timer_spec(TimerKind::TimerTrue, duration, old(self).items@, old(self).end),
    {
        self.run_timer(TimerKind::TimerTrue, duration)
    }
}

} // verus!

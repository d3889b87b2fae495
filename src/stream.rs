use vstd::prelude::*;

use crate::payload::{Comparable, Payload};

verus! {

/// A value together with the time, in milliseconds, at which it was sent.
pub struct Timed<T> {
    pub at: u64,
    pub value: T,
}

impl<T: Payload> Timed<T> {
    /// An exact copy of the timed value.
    pub fn duplicate(&self) -> (r: Timed<T>)
        ensures
            r == *self,
    {
        Timed { at: self.at, value: self.value.duplicate() }
    }
}

/// The history of one bus, from the moment it opened (`start`) to the
/// moment its writer was dropped (`end`): every value sent on it, in the
/// order it was sent, with the time of sending. Each operator turns the
/// history of its inputs into the history of its output bus.
pub struct RxPipe<T> {
    pub start: u64,
    pub end: u64,
    pub items: Vec<Timed<T>>,
}

/// The writing side of a bus owned elsewhere; other streams can be copied
/// into it.
pub type TxPipe<T> = RxPipe<T>;

/// `diff` on a history: each value paired with the one before it; the first
/// is paired with `initial`.
pub open spec fn diff_spec<T>(s: Seq<Timed<T>>, initial: Option<T>) -> Seq<Timed<(Option<T>, T)>> {
    Seq::new(
        s.len(),
        |i: int|
            Timed {
                at: s[i].at,
                value: (if i == 0 { initial } else { Some(s[i - 1].value) }, s[i].value),
            },
    )
}

/// Whether a `(previous, current)` pair records a change.
pub open spec fn is_change<T: DeepView>(p: (Option<T>, T)) -> bool {
    match p.0 {
        None => true,
        Some(prev) => prev.deep_view() != p.1.deep_view(),
    }
}

/// `changed` on a history: the current value of each pair that records a
/// change, in order.
pub open spec fn changed_spec<T: DeepView>(s: Seq<Timed<(Option<T>, T)>>) -> Seq<Timed<T>>
    decreases s.len(),
{
    if s.len() == 0 {
        Seq::empty()
    } else {
        let rest = changed_spec(s.drop_last());
        if is_change(s.last().value) {
            rest.push(Timed { at: s.last().at, value: s.last().value.1 })
        } else {
            rest
        }
    }
}

/// The items of `s` whose flag in `keep` is set, in order.
pub open spec fn select<T>(s: Seq<Timed<T>>, keep: Seq<bool>) -> Seq<Timed<T>>
    decreases s.len(),
{
    if s.len() == 0 || keep.len() != s.len() {
        Seq::empty()
    } else {
        let rest = select(s.drop_last(), keep.drop_last());
        if keep.last() {
            rest.push(s.last())
        } else {
            rest
        }
    }
}

/// The present results of `r`, each at the time of the item of `s` it came
/// from, in order.
pub open spec fn present<T, U>(s: Seq<Timed<T>>, r: Seq<Option<U>>) -> Seq<Timed<U>>
    decreases s.len(),
{
    if s.len() == 0 || r.len() != s.len() {
        Seq::empty()
    } else {
        let rest = present(s.drop_last(), r.drop_last());
        match r.last() {
            Some(u) => rest.push(Timed { at: s.last().at, value: u }),
            None => rest,
        }
    }
}


/// The two histories interleaved by time; of two values sent at the same
/// time, the one from `a` comes first.
pub open spec fn merge<T>(a: Seq<Timed<T>>, b: Seq<Timed<T>>) -> Seq<Timed<T>>
    decreases a.len() + b.len(),
{
    if a.len() == 0 {
        b
    } else if b.len() == 0 {
        a
    } else if a[0].at <= b[0].at {
        seq![a[0]] + merge(a.skip(1), b)
    } else {
        seq![b[0]] + merge(a, b.skip(1))
    }
}

/// The value of the last gate item, in order, sent strictly before time
/// `t`; `None` if there is none.
pub open spec fn gate_before(g: Seq<Timed<bool>>, t: u64) -> Option<bool>
    decreases g.len(),
{
    if g.len() == 0 {
        None
    } else if g.last().at < t {
        Some(g.last().value)
    } else {
        gate_before(g.drop_last(), t)
    }
}

/// `gate` on histories: the values sent while the last gate value seen
/// before them was `true`.
pub open spec fn gate_spec<T>(s: Seq<Timed<T>>, g: Seq<Timed<bool>>) -> Seq<Timed<T>>
    decreases s.len(),
{
    if s.len() == 0 {
        Seq::empty()
    } else {
        let rest = gate_spec(s.drop_last(), g);
        if gate_before(g, s.last().at) == Some(true) {
            rest.push(s.last())
        } else {
            rest
        }
    }
}


/// `startup_delay` on a history: `seed` is sent `d` after the bus opened if
/// nothing arrived before then and the bus is still open; all values pass.
pub open spec fn startup_spec<T>(s: Seq<Timed<T>>, start: u64, end: u64, d: u64, seed: T) -> Seq<Timed<T>> {
    if start + d <= end && (s.len() == 0 || start + d <= s[0].at) {
        seq![Timed { at: (start + d) as u64, value: seed }] + s
    } else {
        s
    }
}

/// Which values of `s` differ from the value before them; the first always
/// does.
pub open spec fn differs_from_previous<T: DeepView>(s: Seq<Timed<T>>) -> Seq<bool> {
    Seq::new(s.len(), |i: int| i == 0 || s[i - 1].value.deep_view() != s[i].value.deep_view())
}

/// `diff` then `changed` passes a value exactly when it differs from the
/// value before it (the first always passes), keeping order and times.
pub proof fn lemma_diff_then_changed<T: DeepView>(s: Seq<Timed<T>>)
    ensures
        changed_spec(diff_spec(s, None)) == select(s, differs_from_previous(s)),
    decreases s.len(),
{
    if s.len() > 0 {
        let p = s.drop_last();
        lemma_diff_then_changed(p);
        assert(diff_spec(s, None).drop_last() =~= diff_spec(p, None));
        assert(differs_from_previous(s).drop_last() =~= differs_from_previous(p));
    }
}

/// Every time in `s` lies in `[lo, hi]`.
pub open spec fn within<T>(s: Seq<Timed<T>>, lo: u64, hi: u64) -> bool {
    forall|i: int| 0 <= i < s.len() ==> lo <= #[trigger] s[i].at <= hi
}

/// Interleaving keeps times within bounds that hold of both histories.
pub proof fn lemma_merge_within<T>(a: Seq<Timed<T>>, b: Seq<Timed<T>>, lo: u64, hi: u64)
    requires
        within(a, lo, hi),
        within(b, lo, hi),
    ensures
        within(merge(a, b), lo, hi),
    decreases a.len() + b.len(),
{
    if a.len() == 0 || b.len() == 0 {
    } else if a[0].at <= b[0].at {
        lemma_merge_within(a.skip(1), b, lo, hi);
        let m = merge(a.skip(1), b);
        assert forall|i: int| 0 <= i < merge(a, b).len() implies lo <= #[trigger] merge(a, b)[i].at <= hi by {
            if i > 0 {
                assert(merge(a, b)[i] == m[i - 1]);
            }
        }
    } else {
        lemma_merge_within(a, b.skip(1), lo, hi);
        let m = merge(a, b.skip(1));
        assert forall|i: int| 0 <= i < merge(a, b).len() implies lo <= #[trigger] merge(a, b)[i].at <= hi by {
            if i > 0 {
                assert(merge(a, b)[i] == m[i - 1]);
            }
        }
    }
}

/// Interleaves two histories by time, as `merge` says.
pub fn merge_items<T: Payload>(a: &Vec<Timed<T>>, b: &Vec<Timed<T>>) -> (r: Vec<Timed<T>>)
    ensures
        r@ == merge(a@, b@),
{
    let mut out: Vec<Timed<T>> = Vec::new();
    let mut i: usize = 0;
    let mut j: usize = 0;
    assert(a@.skip(0) =~= a@);
    assert(b@.skip(0) =~= b@);
    assert(out@ + merge(a@, b@) =~= merge(a@, b@));
    while i < a.len() || j < b.len()
        invariant
            i <= a@.len(),
            j <= b@.len(),
            out@ + merge(a@.skip(i as int), b@.skip(j as int)) == merge(a@, b@),
        decreases a@.len() + b@.len() - i - j,
    {
        let ghost sa = a@.skip(i as int);
        let ghost sb = b@.skip(j as int);
        if j >= b.len() || (i < a.len() && a[i].at <= b[j].at) {
            out.push(a[i].duplicate());
            proof {
                assert(sa.skip(1) =~= a@.skip(i + 1));
                if sb.len() == 0 {
                    assert(merge(sa, sb) == sa);
                    assert(merge(sa.skip(1), sb) == sa.skip(1));
                    assert(sa =~= seq![sa[0]] + sa.skip(1));
                }
            }
            i = i + 1;
        } else {
            out.push(b[j].duplicate());
            proof {
                assert(sb.skip(1) =~= b@.skip(j + 1));
                if sa.len() == 0 {
                    assert(merge(sa, sb) == sb);
                    assert(merge(sa, sb.skip(1)) == sb.skip(1));
                    assert(sb =~= seq![sb[0]] + sb.skip(1));
                }
            }
            j = j + 1;
        }
        assert(out@ + merge(a@.skip(i as int), b@.skip(j as int)) =~= merge(a@, b@));
    }
    assert(merge(a@.skip(i as int), b@.skip(j as int)) =~= Seq::<Timed<T>>::empty());
    assert(out@ =~= merge(a@, b@));
    out
}

impl<T> RxPipe<T> {
    /// Every item lies within the bus's lifetime.
    pub open spec fn wf(&self) -> bool {
        &&& self.start <= self.end
        &&& forall|i: int|
            0 <= i < self.items@.len() ==> self.start <= #[trigger] self.items@[i].at <= self.end
    }

    /// Whether `o` is a history over the same lifetime as `self`.
    pub open spec fn same_span<U>(&self, o: &RxPipe<U>) -> bool {
        o.start == self.start && o.end == self.end
    }

    /// An empty history of a bus open from `start` to `end`.
    pub fn new(start: u64, end: u64) -> (r: RxPipe<T>)
        requires
            start <= end,
        ensures
            r.wf(),
            r.start == start,
            r.end == end,
            r.items@.len() == 0,
    {
        RxPipe { start, end, items: Vec::new() }
    }

    /// Records `value` sent at time `at`.
    pub fn send(&mut self, at: u64, value: T)
        requires
            old(self).wf(),
            old(self).start <= at <= old(self).end,
        ensures
            final(self).wf(),
            final(self).start == old(self).start,
            final(self).end == old(self).end,
            final(self).items@ == old(self).items@.push(Timed { at, value }),
    {
        self.items.push(Timed { at, value });
    }

    /// The number of values sent.
    pub fn len(&self) -> (r: usize)
        ensures
            r == self.items@.len(),
    {
        self.items.len()
    }
}

impl<T: Payload> RxPipe<T> {
    /// An exact copy of the history.
    pub fn duplicate(&self) -> (r: RxPipe<T>)
        ensures
            r.start == self.start,
            r.end == self.end,
            r.items@ == self.items@,
    {
        let mut items: Vec<Timed<T>> = Vec::new();
        let n = self.items.len();
        for i in 0..n
            invariant
                n == self.items@.len(),
                items@ == self.items@.subrange(0, i as int),
        {
            items.push(self.items[i].duplicate());
            assert(items@ =~= self.items@.subrange(0, i + 1));
        }
        assert(items@ =~= self.items@);
        RxPipe { start: self.start, end: self.end, items }
    }

    /// Pairs every value with the one before it; the first with `None`.
    pub fn diff(&mut self) -> (r: RxPipe<(Option<T>, T)>)
        requires
            old(self).wf(),
        ensures
            *final(self) == *old(self),
            r.wf(),
            r.same_span(old(self)),
            r.items@ == diff_spec(old(self).items@, None),
    {
        self.diff_with_initial_value(None)
    }

    /// Pairs every value with the one before it; the first with
    /// `initial_value`.
    pub fn diff_with_initial_value(&mut self, initial_value: Option<T>) -> (r: RxPipe<(Option<T>, T)>)
        requires
            old(self).wf(),
        ensures
            *final(self) == *old(self),
            r.wf(),
            r.same_span(old(self)),
            r.items@ == diff_spec(old(self).items@, initial_value),
    {
        let ghost s = self.items@;
        let mut items: Vec<Timed<(Option<T>, T)>> = Vec::new();
        let mut previous: Option<T> = initial_value;
        let n = self.items.len();
        for i in 0..n
            invariant
                n == s.len(),
                s == self.items@,
                self.wf(),
                items@ == diff_spec(s, initial_value).subrange(0, i as int),
                previous == (if i == 0 { initial_value } else { Some(s[i - 1].value) }),
        {
            let item = &self.items[i];
            let current = item.value.duplicate();
            let next = item.value.duplicate();
            items.push(Timed { at: item.at, value: (previous, current) });
            previous = Some(next);
            assert(items@ =~= diff_spec(s, initial_value).subrange(0, i + 1));
        }
        assert(items@ =~= diff_spec(s, initial_value));
        RxPipe { start: self.start, end: self.end, items }
    }

    /// Passes every value through unchanged, under the label `msg`.
    pub fn debug(&mut self, msg: &str) -> (r: RxPipe<T>)
        requires
            old(self).wf(),
        ensures
            *final(self) == *old(self),
            r.wf(),
            r.same_span(old(self)),
            r.items@ == old(self).items@,
    {
        self.duplicate()
    }

    /// Applies `callback` to every value.
    pub fn map<U>(&mut self, callback: impl Fn(T) -> U) -> (r: RxPipe<U>)
        requires
            old(self).wf(),
            forall|i: int|
                0 <= i < old(self).items@.len() ==> callback.requires(
                    (#[trigger] old(self).items@[i].value,),
                ),
        ensures
            *final(self) == *old(self),
            r.wf(),
            r.same_span(old(self)),
            r.items@.len() == old(self).items@.len(),
            forall|i: int|
                0 <= i < r.items@.len() ==> (#[trigger] r.items@[i]).at == old(self).items@[i].at
                    && callback.ensures((old(self).items@[i].value,), r.items@[i].value),
    {
        let ghost s = self.items@;
        let mut items: Vec<Timed<U>> = Vec::new();
        let n = self.items.len();
        for i in 0..n
            invariant
                n == s.len(),
                s == self.items@,
                self.wf(),
                forall|j: int| 0 <= j < s.len() ==> callback.requires((#[trigger] s[j].value,)),
                items@.len() == i,
                forall|j: int|
                    0 <= j < i ==> (#[trigger] items@[j]).at == s[j].at && callback.ensures(
                        (s[j].value,),
                        items@[j].value,
                    ),
        {
            let item = &self.items[i];
            let u = callback(item.value.duplicate());
            items.push(Timed { at: item.at, value: u });
        }
        RxPipe { start: self.start, end: self.end, items }
    }

    /// Keeps the values for which `callback` holds.
    pub fn filter(&mut self, callback: impl Fn(&T) -> bool) -> (r: RxPipe<T>)
        requires
            old(self).wf(),
            forall|i: int|
                0 <= i < old(self).items@.len() ==> callback.requires(
                    (&#[trigger] old(self).items@[i].value,),
                ),
        ensures
            *final(self) == *old(self),
            r.wf(),
            r.same_span(old(self)),
            exists|keep: Seq<bool>|
                {
                    &&& keep.len() == old(self).items@.len()
                    &&& forall|i: int|
                        0 <= i < keep.len() ==> callback.ensures(
                            (&old(self).items@[i].value,),
                            #[trigger] keep[i],
                        )
                    &&& r.items@ == select(old(self).items@, keep)
                },
    {
        let ghost s = self.items@;
        let ghost mut keep: Seq<bool> = Seq::empty();
        let mut items: Vec<Timed<T>> = Vec::new();
        let n = self.items.len();
        for i in 0..n
            invariant
                n == s.len(),
                s == self.items@,
                self.wf(),
                forall|j: int| 0 <= j < s.len() ==> callback.requires((&#[trigger] s[j].value,)),
                keep.len() == i,
                forall|j: int|
                    0 <= j < i ==> callback.ensures((&s[j].value,), #[trigger] keep[j]),
                items@ == select(s.subrange(0, i as int), keep),
                forall|j: int|
                    0 <= j < items@.len() ==> self.start <= #[trigger] items@[j].at <= self.end,
        {
            let item = &self.items[i];
            let b = callback(&item.value);
            if b {
                items.push(item.duplicate());
            }
            proof {
                let keep0 = keep;
                keep = keep.push(b);
                assert(s.subrange(0, i + 1).drop_last() =~= s.subrange(0, i as int));
                assert(keep.drop_last() =~= keep0);
            }
        }
        assert(s.subrange(0, n as int) =~= s);
        RxPipe { start: self.start, end: self.end, items }
    }

    /// Keeps the present results of `callback` on every value.
    pub fn filter_map<U>(&mut self, callback: impl Fn(T) -> Option<U>) -> (r: RxPipe<U>)
        requires
            old(self).wf(),
            forall|i: int|
                0 <= i < old(self).items@.len() ==> callback.requires(
                    (#[trigger] old(self).items@[i].value,),
                ),
        ensures
            *final(self) == *old(self),
            r.wf(),
            r.same_span(old(self)),
            exists|res: Seq<Option<U>>|
                {
                    &&& res.len() == old(self).items@.len()
                    &&& forall|i: int|
                        0 <= i < res.len() ==> callback.ensures(
                            (old(self).items@[i].value,),
                            #[trigger] res[i],
                        )
                    &&& r.items@ == present(old(self).items@, res)
                },
    {
        let ghost s = self.items@;
        let ghost mut res: Seq<Option<U>> = Seq::empty();
        let mut items: Vec<Timed<U>> = Vec::new();
        let n = self.items.len();
        for i in 0..n
            invariant
                n == s.len(),
                s == self.items@,
                self.wf(),
                forall|j: int| 0 <= j < s.len() ==> callback.requires((#[trigger] s[j].value,)),
                res.len() == i,
                forall|j: int| 0 <= j < i ==> callback.ensures((s[j].value,), #[trigger] res[j]),
                items@ == present(s.subrange(0, i as int), res),
                forall|j: int|
                    0 <= j < items@.len() ==> self.start <= #[trigger] items@[j].at <= self.end,
        {
            let item = &self.items[i];
            let o = callback(item.value.duplicate());
            let ghost og = o;
            match o {
                Some(u) => items.push(Timed { at: item.at, value: u }),
                None => {},
            }
            proof {
                let res0 = res;
                res = res.push(og);
                assert(s.subrange(0, i + 1).drop_last() =~= s.subrange(0, i as int));
                assert(res.drop_last() =~= res0);
            }
        }
        assert(s.subrange(0, n as int) =~= s);
        RxPipe { start: self.start, end: self.end, items }
    }
    /// Passes on the values sent while the last value seen on `gate` was
    /// `true`; nothing passes before the first gate value.
    pub fn gate(&mut self, gate: RxPipe<bool>) -> (r: RxPipe<T>)
        requires
            old(self).wf(),
        ensures
            *final(self) == *old(self),
            r.wf(),
            r.same_span(old(self)),
            r.items@ == gate_spec(old(self).items@, gate.items@),
    {
        let ghost s = self.items@;
        let ghost g = gate.items@;
        let mut items: Vec<Timed<T>> = Vec::new();
        let n = self.items.len();
        for i in 0..n
            invariant
                n == s.len(),
                s == self.items@,
                g == gate.items@,
                self.wf(),
                items@ == gate_spec(s.subrange(0, i as int), g),
                within(items@, self.start, self.end),
        {
            let item = &self.items[i];
            let mut k: usize = gate.items.len();
            let mut open: Option<bool> = None;
            assert(g.subrange(0, g.len() as int) =~= g);
            while k > 0
                invariant
                    k <= g.len(),
                    g == gate.items@,
                    open is Some ==> k == 0,
                    gate_before(g, item.at) == (match open {
                        Some(v) => Some(v),
                        None => gate_before(g.subrange(0, k as int), item.at),
                    }),
                decreases k,
            {
                let ghost gk = g.subrange(0, k as int);
                assert(gk.drop_last() =~= g.subrange(0, k - 1));
                assert(gk.last() == g[k - 1]);
                if gate.items[k - 1].at < item.at {
                    open = Some(gate.items[k - 1].value);
                    assert(gate_before(gk, item.at) == open);
                    k = 0;
                } else {
                    assert(gate_before(gk, item.at) == gate_before(g.subrange(0, k - 1), item.at));
                    k = k - 1;
                }
            }
            proof {
                if open is None {
                    assert(g.subrange(0, 0) =~= Seq::<Timed<bool>>::empty());
                }
            }
            if open == Some(true) {
                items.push(item.duplicate());
            }
            assert(s.subrange(0, i + 1).drop_last() =~= s.subrange(0, i as int));
        }
        assert(s.subrange(0, n as int) =~= s);
        RxPipe { start: self.start, end: self.end, items }
    }

    /// Copies every value into `output`, interleaved by time with what it
    /// already holds.
    pub fn copy_to(&mut self, output: &mut TxPipe<T>)
        requires
            old(self).wf(),
            old(output).wf(),
            old(output).start <= old(self).start,
            old(self).end <= old(output).end,
        ensures
            *final(self) == *old(self),
            final(output).wf(),
            final(output).same_span(old(output)),
            final(output).items@ == merge(old(output).items@, old(self).items@),
    {
        let items = merge_items(&output.items, &self.items);
        proof {
            lemma_merge_within(output.items@, self.items@, output.start, output.end);
        }
        output.items = items;
    }

    /// Sends `value` once, `duration` milliseconds after the bus opened,
    /// unless a value arrived first; passes every value.
    pub fn startup_delay(&mut self, duration: u64, value: T) -> (r: RxPipe<T>)
        requires
            old(self).wf(),
        ensures
            *final(self) == *old(self),
            r.wf(),
            r.same_span(old(self)),
            r.items@ == startup_spec(old(self).items@, old(self).start, old(self).end, duration, value),
    {
        let mut out = self.duplicate();
        let fire = duration <= self.end - self.start && (self.items.len() == 0 || self.start + duration
            <= self.items[0].at);
        if fire {
            out.items.insert(0, Timed { at: self.start + duration, value });
            assert(out.items@ =~= seq![Timed { at: (self.start + duration) as u64, value }] + self.items@);
        }
        out
    }

    /// Two independent readers of the same history.
    pub fn split2(self) -> (r: (RxPipe<T>, RxPipe<T>))
        requires
            self.wf(),
        ensures
            r.0.wf() && r.0.same_span(&self) && r.0.items@ == self.items@,
            r.1.wf() && r.1.same_span(&self) && r.1.items@ == self.items@,
    {
        let copy = self.duplicate();
        (self, copy)
    }

    /// Applies `callback` to every value together with a state that starts
    /// as `initial`; each call hands back the next state and the output.
    pub fn map_with_state<U, V>(&mut self, initial: V, callback: impl Fn(V, T) -> (V, U)) -> (r: RxPipe<U>)
        requires
            old(self).wf(),
            forall|v: V, x: T| callback.requires((v, x)),
        ensures
            *final(self) == *old(self),
            r.wf(),
            r.same_span(old(self)),
            r.items@.len() == old(self).items@.len(),
            exists|states: Seq<V>|
                {
                    &&& states.len() == old(self).items@.len() + 1
                    &&& states[0] == initial
                    &&& forall|i: int|
                        0 <= i < r.items@.len() ==> (#[trigger] r.items@[i]).at == old(self).items@[i].at
                            && callback.ensures(
                            (states[i], old(self).items@[i].value),
                            (states[i + 1], r.items@[i].value),
                        )
                },
    {
        let ghost s = self.items@;
        let mut state = initial;
        let ghost mut states: Seq<V> = seq![initial];
        let mut items: Vec<Timed<U>> = Vec::new();
        let n = self.items.len();
        for i in 0..n
            invariant
                n == s.len(),
                s == self.items@,
                self.wf(),
                forall|v: V, x: T| callback.requires((v, x)),
                items@.len() == i,
                states.len() == i + 1,
                states[0] == initial,
                states[i as int] == state,
                forall|j: int|
                    0 <= j < i ==> (#[trigger] items@[j]).at == s[j].at && callback.ensures(
                        (states[j], s[j].value),
                        (states[j + 1], items@[j].value),
                    ),
        {
            let item = &self.items[i];
            let (next, u) = callback(state, item.value.duplicate());
            state = next;
            items.push(Timed { at: item.at, value: u });
            proof {
                states = states.push(state);
            }
        }
        RxPipe { start: self.start, end: self.end, items }
    }
}

impl<T: Comparable> RxPipe<(Option<T>, T)> {
    /// Passes on the current value of each pair whose previous value is
    /// absent or differs from it.
    pub fn changed(&mut self) -> (r: RxPipe<T>)
        requires
            old(self).wf(),
        ensures
            *final(self) == *old(self),
            r.wf(),
            r.same_span(old(self)),
            r.items@ == changed_spec(old(self).items@),
    {
        let ghost s = self.items@;
        let mut items: Vec<Timed<T>> = Vec::new();
        let n = self.items.len();
        for i in 0..n
            invariant
                n == s.len(),
                s == self.items@,
                self.wf(),
                items@ == changed_spec(s.subrange(0, i as int)),
                within(items@, self.start, self.end),
        {
            let item = &self.items[i];
            let change = match &item.value.0 {
                None => true,
                Some(previous) => !previous.same(&item.value.1),
            };
            if change {
                items.push(Timed { at: item.at, value: item.value.1.duplicate() });
            }
            assert(s.subrange(0, i + 1).drop_last() =~= s.subrange(0, i as int));
        }
        assert(s.subrange(0, n as int) =~= s);
        RxPipe { start: self.start, end: self.end, items }
    }
}

} // verus!

use vstd::prelude::*;

use crate::payload::Payload;

verus! {

/// A bounded, ordered channel with one writer and any number of readers.
/// It keeps the last `capacity` values sent; a reader that falls further
/// behind skips forward to the oldest value kept.
pub struct Bus<T> {
    capacity: usize,
    first: u64,
    window: Vec<T>,
    closed: bool,
    history: Ghost<Seq<T>>,
}

/// A reader's position on a bus: the number of the next value it reads.
pub struct Reader {
    next: u64,
}

impl Reader {
    /// The number of the next value this reader reads.
    pub closed spec fn next(&self) -> nat {
        self.next as nat
    }
}

/// The outcome of one read.
pub enum ReadResult<T> {
    /// The next value.
    Item(T),
    /// The reader fell behind: this many values were skipped.
    Lagged(u64),
    /// Nothing is left to read and the writer is gone.
    Closed,
    /// Nothing is left to read for now.
    Empty,
}

impl<T> Bus<T> {
    /// Every value ever sent, in order.
    pub closed spec fn history(&self) -> Seq<T> {
        self.history@
    }

    /// The number of the oldest value still kept.
    pub closed spec fn first(&self) -> nat {
        self.first as nat
    }

    /// Whether the writer is gone.
    pub closed spec fn is_closed(&self) -> bool {
        self.closed
    }

    /// How many values the bus keeps.
    pub closed spec fn capacity(&self) -> nat {
        self.capacity as nat
    }

    /// The kept values are the last ones sent, at most `capacity` of them.
    pub closed spec fn wf(&self) -> bool {
        &&& self.capacity > 0
        &&& self.window@.len() <= self.capacity
        &&& self.first + self.window@.len() == self.history@.len()
        &&& self.history@.len() <= u64::MAX
        &&& self.window@ == self.history@.subrange(self.first as int, self.history@.len() as int)
        &&& (self.window@.len() < self.capacity ==> self.first == 0)
    }

    /// A reader made for this bus is never ahead of it.
    pub open spec fn valid_reader(&self, r: Reader) -> bool {
        r.next() <= self.history().len()
    }

    /// The values `r` has still to read, in order.
    pub open spec fn unread(&self, r: Reader) -> Seq<T> {
        self.history().subrange(r.next() as int, self.history().len() as int)
    }

    /// An open bus that keeps `capacity` values.
    pub fn new(capacity: usize) -> (r: Bus<T>)
        requires
            capacity > 0,
        ensures
            r.wf(),
            r.history().len() == 0,
            r.first() == 0,
            !r.is_closed(),
            r.capacity() == capacity,
    {
        let bus = Bus { capacity, first: 0, window: Vec::new(), closed: false, history: Ghost(Seq::empty()) };
        assert(bus.window@ =~= bus.history@.subrange(0, 0));
        bus
    }

    /// Sends `v` to every reader; never blocks. The oldest kept value is
    /// let go once more than `capacity` are kept. A closed bus refuses.
    pub fn send(&mut self, v: T) -> (r: bool)
        requires
            old(self).wf(),
            old(self).history().len() < u64::MAX,
        ensures
            final(self).wf(),
            final(self).capacity() == old(self).capacity(),
            final(self).is_closed() == old(self).is_closed(),
            r == !old(self).is_closed(),
            r ==> final(self).history() == old(self).history().push(v),
            !r ==> final(self).history() == old(self).history(),
            final(self).first() == (if final(self).history().len() > final(self).capacity() {
                final(self).history().len() - final(self).capacity()
            } else {
                0
            }),
    {
        if self.closed {
            return false;
        }
        self.window.push(v);
        self.history = Ghost(self.history@.push(v));
        if self.window.len() > self.capacity {
            self.window.remove(0);
            self.first = self.first + 1;
        }
        assert(self.window@ =~= self.history@.subrange(self.first as int, self.history@.len() as int));
        true
    }

    /// Drops the writer: readers see the bus closed once they have read what
    /// is kept.
    pub fn close(&mut self)
        requires
            old(self).wf(),
        ensures
            final(self).wf(),
            final(self).is_closed(),
            final(self).history() == old(self).history(),
            final(self).first() == old(self).first(),
            final(self).capacity() == old(self).capacity(),
    {
        self.closed = true;
    }

    /// A new reader: it sees only values sent from now on.
    pub fn subscribe(&self) -> (r: Reader)
        requires
            self.wf(),
        ensures
            r.next() == self.history().len(),
            self.valid_reader(r),
    {
        Reader { next: self.first + self.window.len() as u64 }
    }
}

impl<T: Payload> Bus<T> {
    /// Reads the next value for `r`, skipping forward if it fell behind.
    pub fn read(&self, r: &mut Reader) -> (res: ReadResult<T>)
        requires
            self.wf(),
            self.valid_reader(*old(r)),
        ensures
            self.valid_reader(*final(r)),
            old(r).next() < self.first() ==> res == ReadResult::<T>::Lagged(
                (self.first() - old(r).next()) as u64,
            ) && final(r).next() == self.first(),
            self.first() <= old(r).next() < self.history().len() ==> res == ReadResult::Item(
                self.history()[old(r).next() as int],
            ) && final(r).next() == old(r).next() + 1,
            old(r).next() == self.history().len() ==> final(r).next() == old(r).next() && (if self.is_closed() {
                res == ReadResult::<T>::Closed
            } else {
                res == ReadResult::<T>::Empty
            }),
    {
        if r.next < self.first {
            let skipped = self.first - r.next;
            r.next = self.first;
            ReadResult::Lagged(skipped)
        } else if r.next - self.first < self.window.len() as u64 {
            let v = self.window[(r.next - self.first) as usize].duplicate();
            r.next = r.next + 1;
            ReadResult::Item(v)
        } else if self.closed {
            ReadResult::Closed
        } else {
            ReadResult::Empty
        }
    }

    /// Reads everything `r` has not read yet. A reader that has not fallen
    /// behind gets exactly its unread values, in order.
    pub fn drain(&self, r: &mut Reader) -> (res: Vec<T>)
        requires
            self.wf(),
            self.valid_reader(*old(r)),
        ensures
            self.valid_reader(*final(r)),
            final(r).next() == self.history().len(),
            old(r).next() >= self.first() ==> res@ == self.unread(*old(r)),
    {
        let mut out: Vec<T> = Vec::new();
        let ghost start = r.next();
        let total = self.first + self.window.len() as u64;
        while r.next < total
            invariant
                self.wf(),
                total == self.history().len(),
                self.valid_reader(*r),
                start >= self.first() ==> r.next() >= start && out@ == self.history().subrange(
                    start as int,
                    r.next() as int,
                ),
            decreases total - r.next,
        {
            let ghost before = r.next();
            match self.read(r) {
                ReadResult::Item(v) => {
                    out.push(v);
                    proof {
                        if start >= self.first() {
                            assert(out@ =~= self.history().subrange(start as int, r.next() as int));
                        }
                    }
                },
                _ => {},
            }
        }
        out
    }
}

/// Fan-out: readers that subscribed at the same point, and have not fallen
/// behind, have the same values still to read: every value sent since, in
/// order, whatever the other readers have done.
pub proof fn lemma_fan_out<T>(bus: Bus<T>, a: Reader, b: Reader, sent_before: nat)
    requires
        a.next() == sent_before,
        b.next() == sent_before,
        sent_before <= bus.history().len(),
    ensures
        bus.unread(a) == bus.unread(b),
        bus.unread(a) == bus.history().subrange(sent_before as int, bus.history().len() as int),
        bus.unread(a).len() == bus.history().len() - sent_before,
{
}

} // verus!

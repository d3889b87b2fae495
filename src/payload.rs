use vstd::prelude::*;

verus! {

/// A value that can travel on a stream: it can be copied exactly.
pub trait Payload: Sized {
    /// An exact copy of `self`.
    fn duplicate(&self) -> (r: Self)
        ensures
            r == *self,
    ;
}

/// A payload that can be compared with another by its deep view.
pub trait Comparable: Payload + DeepView {
    /// Whether `self` and `other` have the same deep view.
    fn same(&self, other: &Self) -> (r: bool)
        ensures
            r == (self.deep_view() == other.deep_view()),
    ;
}

impl Payload for bool {
    fn duplicate(&self) -> (r: bool) {
        *self
    }
}

impl Comparable for bool {
    fn same(&self, other: &bool) -> (r: bool) {
        *self == *other
    }
}

impl Payload for u16 {
    fn duplicate(&self) -> (r: u16) {
        *self
    }
}

impl Comparable for u16 {
    fn same(&self, other: &u16) -> (r: bool) {
        *self == *other
    }
}

impl Payload for u64 {
    fn duplicate(&self) -> (r: u64) {
        *self
    }
}

impl Comparable for u64 {
    fn same(&self, other: &u64) -> (r: bool) {
        *self == *other
    }
}

impl Payload for usize {
    fn duplicate(&self) -> (r: usize) {
        *self
    }
}

impl Comparable for usize {
    fn same(&self, other: &usize) -> (r: bool) {
        *self == *other
    }
}

impl Payload for i64 {
    fn duplicate(&self) -> (r: i64) {
        *self
    }
}

impl Comparable for i64 {
    fn same(&self, other: &i64) -> (r: bool) {
        *self == *other
    }
}

impl Payload for String {
    fn duplicate(&self) -> (r: String) {
        self.clone()
    }
}

impl Comparable for String {
    fn same(&self, other: &String) -> (r: bool) {
        *self == *other
    }
}

impl<A: Payload> Payload for Option<A> {
    fn duplicate(&self) -> (r: Option<A>) {
        match self {
            Some(a) => Some(a.duplicate()),
            None => None,
        }
    }
}

impl<A: Comparable> Comparable for Option<A> {
    fn same(&self, other: &Option<A>) -> (r: bool) {
        match (self, other) {
            (Some(a), Some(b)) => a.same(b),
            (None, None) => true,
            _ => false,
        }
    }
}

impl<A: Payload, B: Payload> Payload for (A, B) {
    fn duplicate(&self) -> (r: (A, B)) {
        (self.0.duplicate(), self.1.duplicate())
    }
}

impl<A: Comparable, B: Comparable> Comparable for (A, B) {
    fn same(&self, other: &(A, B)) -> (r: bool) {
        self.0.same(&other.0) && self.1.same(&other.1)
    }
}

} // verus!

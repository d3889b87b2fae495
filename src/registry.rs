use vstd::prelude::*;

verus! {

/// The topics that inbound messages are routed by, each at most once; a
/// topic's position is the number of the bus its messages go to.
pub struct Subscriptions {
    topics: Vec<String>,
}

impl Subscriptions {
    /// The registered topics, in order of registration.
    pub closed spec fn view(&self) -> Seq<Seq<char>> {
        self.topics@.map_values(|t: String| t@)
    }

    /// No topic is registered twice.
    pub closed spec fn wf(&self) -> bool {
        forall|i: int, j: int|
            0 <= i < j < self.view().len() ==> #[trigger] self.view()[i] != #[trigger] self.view()[j]
    }

    /// An empty registry.
    pub fn new() -> (r: Subscriptions)
        ensures
            r.wf(),
            r.view().len() == 0,
    {
        Subscriptions { topics: Vec::new() }
    }

    /// The bus number for `topic`, if it is registered.
    pub fn get(&self, topic: &str) -> (r: Option<usize>)
        requires
            self.wf(),
        ensures
            match r {
                Some(i) => i < self.view().len() && self.view()[i as int] == topic@,
                None => !self.view().contains(topic@),
            },
    {
        let wanted = topic.to_owned();
        let n = self.topics.len();
        for i in 0..n
            invariant
                n == self.view().len(),
                wanted@ == topic@,
                forall|j: int| 0 <= j < i ==> #[trigger] self.view()[j] != topic@,
        {
            if self.topics[i] == wanted {
                return Some(i);
            }
        }
        None
    }

    /// Registers `topic` the first time it is asked for; later requests
    /// share it. Gives its bus number.
    pub fn subscribe(&mut self, topic: &str) -> (r: usize)
        requires
            old(self).wf(),
        ensures
            final(self).wf(),
            old(self).view().contains(topic@) ==> final(self).view() == old(self).view(),
            !old(self).view().contains(topic@) ==> final(self).view() == old(self).view().push(topic@),
            r < final(self).view().len(),
            final(self).view()[r as int] == topic@,
    {
        match self.get(topic) {
            Some(i) => i,
            None => {
                let n = self.topics.len();
                self.topics.push(topic.to_owned());
                assert(self.view() =~= old(self).view().push(topic@));
                n
            },
        }
    }

    /// The registered topics, for one batched subscribe.
    pub fn topics(&self) -> (r: Vec<String>)
        ensures
            r@.map_values(|t: String| t@) == self.view(),
    {
        let mut out: Vec<String> = Vec::new();
        let n = self.topics.len();
        for i in 0..n
            invariant
                n == self.topics@.len(),
                out@.len() == i,
                forall|j: int| 0 <= j < i ==> (#[trigger] out@[j])@ == self.topics@[j]@,
        {
            out.push(self.topics[i].clone());
        }
        assert(out@.map_values(|t: String| t@) =~= self.view());
        out
    }
}

} // verus!

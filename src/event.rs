use vstd::prelude::*;

verus! {

/// Whether the ids of a listener list are strictly increasing.
pub open spec fn ids_increasing<L>(s: Seq<(u64, L)>) -> bool {
    forall|i: int, j: int| 0 <= i < j < s.len() ==> s[i].0 < s[j].0
}

/// The ids of a listener list, in order.
pub open spec fn ids_of<L>(s: Seq<(u64, L)>) -> Seq<u64> {
    s.map_values(|p: (u64, L)| p.0)
}

/// A registry of listeners that stay subscribed until removed.
///
/// Each subscription gets a fresh id; firing yields the ids of the current
/// listeners in the order in which they subscribed, and the caller invokes
/// them with the event's data.
pub struct Event<L> {
    next_id: u64,
    listeners: Vec<(u64, L)>,
}

impl<L> Event<L> {
    pub closed spec fn view_listeners(&self) -> Seq<(u64, L)> {
        self.listeners@
    }

    pub closed spec fn next_id_spec(&self) -> u64 {
        self.next_id
    }

    pub closed spec fn wf(&self) -> bool {
        &&& ids_increasing(self.listeners@)
        &&& forall|i: int| 0 <= i < self.listeners@.len() ==> self.listeners@[i].0 < self.next_id
    }

    pub fn new() -> (r: Event<L>)
        ensures
            r.wf(),
            r.view_listeners().len() == 0,
            r.next_id_spec() == 0,
    {
        Event { next_id: 0, listeners: Vec::new() }
    }

    /// Adds a listener and returns the id under which it can be removed.
    pub fn subscribe(&mut self, handler: L) -> (id: u64)
        requires
            old(self).wf(),
            old(self).next_id_spec() < u64::MAX,
        ensures
            final(self).wf(),
            id == old(self).next_id_spec(),
            final(self).next_id_spec() == id + 1,
            final(self).view_listeners() == old(self).view_listeners().push((id, handler)),
    {
        let id = self.next_id;
        self.next_id = id + 1;
        self.listeners.push((id, handler));
        id
    }

    /// Removes the listener with the given id, if there is one.
    pub fn unsubscribe(&mut self, id: u64)
        requires
            old(self).wf(),
        ensures
            final(self).wf(),
            final(self).next_id_spec() == old(self).next_id_spec(),
            final(self).view_listeners() == old(self).view_listeners().filter(
                |p: (u64, L)| p.0 != id,
            ),
    {
        let ghost before = self.listeners@;
        let mut i: usize = 0;
        while i < self.listeners.len()
            invariant
                0 <= i <= self.listeners@.len(),
                self.next_id == old(self).next_id,
                self.listeners@.len() <= before.len(),
                ids_increasing(self.listeners@),
                forall|k: int| 0 <= k < self.listeners@.len() ==> self.listeners@[k].0 < self.next_id,
                forall|k: int| 0 <= k < i ==> self.listeners@[k].0 != id,
                self.listeners@.filter(|p: (u64, L)| p.0 != id) == before.filter(
                    |p: (u64, L)| p.0 != id,
                ),
            decreases self.listeners@.len() - i,
        {
            if self.listeners[i].0 == id {
                let ghost cur = self.listeners@;
                self.listeners.remove(i);
                proof {
                    lemma_filter_remove(cur, i as int, id);
                }
            } else {
                i = i + 1;
            }
        }
        proof {
            lemma_filter_none(self.listeners@, id);
        }
    }

    /// The ids of the listeners to invoke, in subscription order.
    pub fn fire(&self) -> (r: Vec<u64>)
        ensures
            r@ == ids_of(self.view_listeners()),
    {
        let mut r: Vec<u64> = Vec::new();
        let mut i: usize = 0;
        while i < self.listeners.len()
            invariant
                0 <= i <= self.listeners@.len(),
                r@ == ids_of(self.listeners@.subrange(0, i as int)),
            decreases self.listeners@.len() - i,
        {
            r.push(self.listeners[i].0);
            proof {
                assert(self.listeners@.subrange(0, i + 1) == self.listeners@.subrange(
                    0,
                    i as int,
                ).push(self.listeners@[i as int]));
            }
            i = i + 1;
        }
        proof {
            assert(self.listeners@.subrange(0, i as int) == self.listeners@);
        }
        r
    }

    /// The position of the listener subscribed under `id`, if it is still
    /// subscribed.
    pub fn position_of(&self, id: u64) -> (r: Option<usize>)
        ensures
            r.is_none() <==> forall|k: int|
                0 <= k < self.view_listeners().len() ==> self.view_listeners()[k].0 != id,
            r.is_some() ==> r.unwrap() < self.view_listeners().len()
                && self.view_listeners()[r.unwrap() as int].0 == id,
    {
        let mut i: usize = 0;
        while i < self.listeners.len()
            invariant
                0 <= i <= self.listeners@.len(),
                forall|k: int| 0 <= k < i ==> self.listeners@[k].0 != id,
            decreases self.listeners@.len() - i,
        {
            if self.listeners[i].0 == id {
                assert(self.view_listeners()[i as int].0 == id);
                return Some(i);
            }
            i = i + 1;
        }
        None
    }

    /// The listener at a position of the subscription order.
    pub fn listener_at(&self, k: usize) -> (r: &L)
        requires
            k < self.view_listeners().len(),
        ensures
            *r == self.view_listeners()[k as int].1,
    {
        &self.listeners[k].1
    }
}

proof fn lemma_filter_remove<L>(s: Seq<(u64, L)>, i: int, id: u64)
    requires
        0 <= i < s.len(),
        s[i].0 == id,
    ensures
        s.remove(i).filter(|p: (u64, L)| p.0 != id) == s.filter(|p: (u64, L)| p.0 != id),
    decreases s.len(),
{
    let f = |p: (u64, L)| p.0 != id;
    reveal(Seq::filter);
    if i == s.len() - 1 {
        assert(s.remove(i) == s.drop_last());
    } else {
        lemma_filter_remove(s.drop_last(), i, id);
        assert(s.remove(i).drop_last() == s.drop_last().remove(i));
        assert(s.remove(i).last() == s.last());
    }
}

proof fn lemma_filter_none<L>(s: Seq<(u64, L)>, id: u64)
    requires
        forall|k: int| 0 <= k < s.len() ==> s[k].0 != id,
    ensures
        s.filter(|p: (u64, L)| p.0 != id) == s,
    decreases s.len(),
{
    reveal(Seq::filter);
    if s.len() > 0 {
        lemma_filter_none(s.drop_last(), id);
        assert(s.drop_last().push(s.last()) == s);
    }
}

/// A registry of listeners that are each invoked once, on the next firing.
pub struct EventOnce<L> {
    listeners: Vec<L>,
}

impl<L> EventOnce<L> {
    pub closed spec fn view_listeners(&self) -> Seq<L> {
        self.listeners@
    }

    pub fn new() -> (r: EventOnce<L>)
        ensures
            r.view_listeners().len() == 0,
    {
        EventOnce { listeners: Vec::new() }
    }

    /// Adds a listener for the next firing.
    pub fn then(&mut self, handler: L)
        ensures
            final(self).view_listeners() == old(self).view_listeners().push(handler),
    {
        self.listeners.push(handler);
    }

    /// Takes every listener out, the latest added first; the caller invokes
    /// them in the returned order.
    pub fn fire(&mut self) -> (r: Vec<L>)
        ensures
            r@ == old(self).view_listeners().reverse(),
            final(self).view_listeners().len() == 0,
    {
        let mut r: Vec<L> = Vec::new();
        let ghost before = self.listeners@;
        while self.listeners.len() > 0
            invariant
                before == self.listeners@ + r@.reverse(),
            decreases self.listeners@.len(),
        {
            let ghost cur = self.listeners@;
            let ghost rr = r@;
            let l = self.listeners.pop().unwrap();
            r.push(l);
            proof {
                assert(r@.reverse() == seq![l] + rr.reverse()) by {
                    assert(r@.reverse() =~= seq![l] + rr.reverse());
                }
                assert(cur == self.listeners@.push(l));
                assert(before =~= self.listeners@ + r@.reverse());
            }
        }
        proof {
            assert(before.reverse() =~= r@.reverse().reverse());
            assert(r@.reverse().reverse() =~= r@);
        }
        r
    }
}

} // verus!

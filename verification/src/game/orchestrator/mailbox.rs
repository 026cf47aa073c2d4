//! The messages that arrived for the orchestrator ahead of their turn: each is
//! kept with its sender's id until the orchestrator waits on that sender.

use vstd::prelude::*;

use crate::explorer::inventory::{count_kind, drop_first, first_obj, first_of_kind};

verus! {

/// Messages held back, in arrival order, each with its sender's id.
pub struct Mailbox<M> {
    waiting: Vec<(u32, M)>,
}

impl<M> Mailbox<M> {
    /// The held messages, oldest first, each with its sender.
    pub closed spec fn entries(self) -> Seq<(u32, M)> {
        self.waiting@
    }

    /// Number of messages held from `sender`.
    pub open spec fn held(self, sender: u32) -> nat {
        count_kind(self.entries(), sender)
    }

    /// Holds nothing.
    pub fn new() -> (b: Self)
        ensures
            b.entries() == Seq::<(u32, M)>::empty(),
    {
        Mailbox { waiting: Vec::new() }
    }

    /// Holds back `msg`, which came from `sender`.
    pub fn put(&mut self, sender: u32, msg: M)
        ensures
            final(self).entries() == old(self).entries().push((sender, msg)),
    {
        self.waiting.push((sender, msg));
    }

    /// The oldest message held from `sender`, taken out; `None` (nothing
    /// changed) when none is held.
    pub fn take_from(&mut self, sender: u32) -> (r: Option<M>)
        ensures
            old(self).held(sender) == 0 ==> r is None && final(self).entries() == old(self).entries(),
            old(self).held(sender) > 0 ==> {
                &&& r == Some(first_obj(old(self).entries(), sender))
                &&& final(self).entries() == drop_first(old(self).entries(), sender)
            },
    {
        let mut i: usize = 0;
        while i < self.waiting.len()
            invariant
                i <= self.waiting@.len(),
                self.waiting@ == old(self).waiting@,
                forall|j: int| 0 <= j < i ==> self.waiting@[j].0 != sender,
            decreases self.waiting@.len() - i,
        {
            if self.waiting[i].0 == sender {
                proof {
                    crate::explorer::inventory::lemma_count_positive(self.waiting@, sender, i as int);
                    let f = first_of_kind(self.waiting@, sender);
                    assert(0 <= f < self.waiting@.len() && self.waiting@[f].0 == sender && forall|j: int|
                        0 <= j < f ==> self.waiting@[j].0 != sender);
                    assert(f == i);
                }
                let (_, msg) = self.waiting.remove(i);
                return Some(msg);
            }
            i = i + 1;
        }
        proof {
            crate::explorer::inventory::lemma_count_zero_none(self.waiting@, sender);
        }
        None
    }
}

} // verus!

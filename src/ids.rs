use vstd::prelude::*;

verus! {

/// Hands out window ids: the first is 1, each later one is larger than every
/// id issued before it, and none is ever issued twice.
pub struct WindowIds {
    next: usize,
    issued: Ghost<Set<nat>>,
}

/// `after` is `before` once the allocation of `id` has happened.
pub open spec fn allocated(before: WindowIds, after: WindowIds, id: usize) -> bool {
    &&& before.next_id() < usize::MAX
    &&& id == before.next_id()
    &&& !before.issued().contains(id as nat)
    &&& forall|i: nat| #[trigger] before.issued().contains(i) ==> i < id
    &&& after.issued() == before.issued().insert(id as nat)
    &&& after.next_id() == id + 1
}

/// Over any run of allocations in a row, where `states[i]` becomes
/// `states[i + 1]` by handing out `ids[i]`, every id handed out earlier is
/// still on record at each later state.
proof fn lemma_issued_stays(states: Seq<WindowIds>, ids: Seq<usize>, i: int, j: int)
    requires
        states.len() == ids.len() + 1,
        forall|k: int|
            0 <= k < ids.len() ==> #[trigger] allocated(states[k], states[k + 1], ids[k]),
        0 <= i < j <= ids.len(),
    ensures
        states[j].issued().contains(ids[i] as nat),
    decreases j - i,
{
    if j == i + 1 {
        assert(allocated(states[i], states[i + 1], ids[i]));
    } else {
        lemma_issued_stays(states, ids, i, j - 1);
        let k = j - 1;
        assert(allocated(states[k], states[k + 1], ids[k]));
    }
}

/// Over any run of allocations in a row, where `states[i]` becomes
/// `states[i + 1]` by handing out `ids[i]`, the ids come out strictly
/// increasing, so no two of them are equal.
pub proof fn lemma_allocations_increase(states: Seq<WindowIds>, ids: Seq<usize>)
    requires
        states.len() == ids.len() + 1,
        forall|k: int|
            0 <= k < ids.len() ==> #[trigger] allocated(states[k], states[k + 1], ids[k]),
    ensures
        forall|i: int, j: int| 0 <= i < j < ids.len() ==> #[trigger] ids[i] < #[trigger] ids[j],
{
    assert forall|i: int, j: int| 0 <= i < j < ids.len() implies #[trigger] ids[i]
        < #[trigger] ids[j] by {
        lemma_issued_stays(states, ids, i, j);
        assert(allocated(states[j], states[j + 1], ids[j]));
    }
}

impl WindowIds {
    /// The id that the next allocation will hand out.
    pub closed spec fn next_id(&self) -> nat {
        self.next as nat
    }

    /// Every id handed out so far.
    pub closed spec fn issued(&self) -> Set<nat> {
        self.issued@
    }

    pub closed spec fn wf(&self) -> bool {
        &&& 1 <= self.next
        &&& forall|i: nat| #[trigger] self.issued@.contains(i) ==> 1 <= i < self.next
    }

    pub fn new() -> (r: WindowIds)
        ensures
            r.wf(),
            r.next_id() == 1,
            r.issued() == Set::<nat>::empty(),
    {
        WindowIds { next: 1, issued: Ghost(Set::empty()) }
    }

    /// Returns a fresh id, or `None` once the id space is used up.
    pub fn allocate_id(&mut self) -> (r: Option<usize>)
        requires
            old(self).wf(),
        ensures
            final(self).wf(),
            match r {
                Some(id) => allocated(*old(self), *final(self), id),
                None => {
                    &&& old(self).next_id() == usize::MAX
                    &&& *final(self) == *old(self)
                },
            },
    {
        if self.next == usize::MAX {
            return None;
        }
        let id = self.next;
        self.next = id + 1;
        self.issued = Ghost(self.issued@.insert(id as nat));
        Some(id)
    }
}

} // verus!

use vstd::prelude::*;

verus! {

/// The table `m` after one poll of the task in `slot`: where the poll handed
/// the task back (`Some`), it stays pending in its new state; where it
/// completed (`None`), it leaves the table. An unknown slot changes nothing.
pub open spec fn after_poll<T>(m: Map<usize, T>, slot: usize, outcome: Option<T>) -> Map<
    usize,
    T,
> {
    if m.contains_key(slot) {
        match outcome {
            Some(t) => m.insert(slot, t),
            None => m.remove(slot),
        }
    } else {
        m
    }
}

/// A task just added under `slot` is pending there, so a poll of `slot`
/// reaches it; once a poll reports it completed, it is gone, and every later
/// poll of `slot` leaves the table as it is.
pub proof fn lemma_poll_after_add<T>(m: Map<usize, T>, slot: usize, task: T)
    requires
        !m.contains_key(slot),
    ensures
        m.insert(slot, task).contains_key(slot),
        m.insert(slot, task)[slot] == task,
        !after_poll(m.insert(slot, task), slot, None).contains_key(slot),
        after_poll(m.insert(slot, task), slot, None) == m,
        forall|later: Option<T>|
            #[trigger] after_poll(after_poll(m.insert(slot, task), slot, None), slot, later)
                == after_poll(m.insert(slot, task), slot, None),
{
    assert(m.insert(slot, task).remove(slot) =~= m);
}

/// What a slot of the table holds.
pub enum Entry<T> {
    /// No unit of work: the slot may be handed out.
    Vacant,
    /// A unit of work waiting for its next poll.
    Pending(T),
    /// A unit of work taken out for a poll that has not finished yet; the
    /// slot stays reserved for it.
    Running,
}

/// Pending units of work, each under a slot number that no other pending
/// or running unit holds. The slot of a completed unit may be handed out again.
pub struct TaskTable<T> {
    slots: Vec<Entry<T>>,
}

impl<T> View for TaskTable<T> {
    type V = Map<usize, T>;

    closed spec fn view(&self) -> Map<usize, T> {
        Map::new(
            |i: usize| i < self.slots@.len() && self.slots@[i as int] is Pending,
            |i: usize| self.slots@[i as int]->Pending_0,
        )
    }
}

impl<T> TaskTable<T> {
    /// The slots whose unit of work is out for a poll.
    pub closed spec fn running(&self) -> Set<usize> {
        Set::new(|i: usize| i < self.slots@.len() && self.slots@[i as int] is Running)
    }

    pub fn new() -> (r: TaskTable<T>)
        ensures
            r@ == Map::<usize, T>::empty(),
            r.running() == Set::<usize>::empty(),
    {
        let r = TaskTable { slots: Vec::new() };
        assert(r@ =~= Map::<usize, T>::empty());
        assert(r.running() =~= Set::<usize>::empty());
        r
    }

    /// Whether `slot` holds a pending unit of work.
    pub fn is_pending(&self, slot: usize) -> (r: bool)
        ensures
            r == self@.contains_key(slot),
    {
        slot < self.slots.len() && matches!(self.slots[slot], Entry::Pending(_))
    }

    /// Whether the unit of work in `slot` is out for a poll.
    pub fn is_running(&self, slot: usize) -> (r: bool)
        ensures
            r == self.running().contains(slot),
    {
        slot < self.slots.len() && matches!(self.slots[slot], Entry::Running)
    }

    /// Stores `task` under a slot that no pending or running unit holds and
    /// returns that slot. `None` comes back, and nothing changes, only where
    /// every slot number below `usize::MAX` is taken.
    pub fn add_task(&mut self, task: T) -> (r: Option<usize>)
        ensures
            final(self).running() == old(self).running(),
            match r {
                Some(slot) => {
                    &&& !old(self)@.contains_key(slot)
                    &&& !old(self).running().contains(slot)
                    &&& final(self)@ == old(self)@.insert(slot, task)
                },
                None => {
                    &&& final(self)@ == old(self)@
                    &&& forall|s: usize|
                        s < usize::MAX ==> old(self)@.contains_key(s) || old(self).running().contains(s)
                },
            },
    {
        let mut i: usize = 0;
        while i < self.slots.len()
            invariant
                i <= self.slots@.len(),
                self.slots@ == old(self).slots@,
                forall|j: int| 0 <= j < i ==> !(self.slots@[j] is Vacant),
            decreases self.slots@.len() - i,
        {
            if matches!(self.slots[i], Entry::Vacant) {
                let ghost before = self@;
                let ghost running = self.running();
                let mut cell = Entry::Pending(task);
                self.slots.set_and_swap(i, &mut cell);
                assert(self@ =~= before.insert(i, task));
                assert(self.running() =~= running);
                return Some(i);
            }
            i = i + 1;
        }
        if self.slots.len() == usize::MAX {
            return None;
        }
        let ghost before = self@;
        let ghost running = self.running();
        let n = self.slots.len();
        self.slots.push(Entry::Pending(task));
        assert(self@ =~= before.insert(n, task));
        assert(self.running() =~= running);
        Some(n)
    }

    /// Takes the unit of work in `slot` out for a poll and reserves the slot
    /// for it. An unknown or running slot is a no-op, and `None` comes back.
    pub fn begin_poll(&mut self, slot: usize) -> (r: Option<T>)
        ensures
            r == crate::registry::lookup_spec(old(self)@, slot),
            r is Some ==> final(self)@ == old(self)@.remove(slot) && final(self).running()
                == old(self).running().insert(slot),
            r is None ==> final(self)@ == old(self)@ && final(self).running() == old(
                self,
            ).running(),
    {
        if slot >= self.slots.len() || !matches!(self.slots[slot], Entry::Pending(_)) {
            return None;
        }
        let ghost before = self@;
        let ghost running = self.running();
        let mut cell = Entry::Running;
        self.slots.set_and_swap(slot, &mut cell);
        assert(self@ =~= before.remove(slot));
        assert(self.running() =~= running.insert(slot));
        match cell {
            Entry::Pending(t) => Some(t),
            _ => None,
        }
    }

    /// Ends the poll of the unit of work taken out of `slot`: where the poll
    /// handed it back (`Some`), it is pending there again; where it completed
    /// (`None`), the slot becomes free.
    pub fn end_poll(&mut self, slot: usize, outcome: Option<T>)
        requires
            old(self).running().contains(slot),
        ensures
            final(self).running() == old(self).running().remove(slot),
            final(self)@ == match outcome {
                Some(t) => old(self)@.insert(slot, t),
                None => old(self)@,
            },
    {
        let ghost before = self@;
        let ghost running = self.running();
        let ghost out = outcome;
        let mut cell = match outcome {
            Some(t) => Entry::Pending(t),
            None => Entry::Vacant,
        };
        self.slots.set_and_swap(slot, &mut cell);
        assert(self.running() =~= running.remove(slot));
        proof {
            match out {
                Some(t) => assert(self@ =~= before.insert(slot, t)),
                None => assert(self@ =~= before),
            }
        }
    }

    /// Polls the unit of work in `slot` once, with `poll`: `poll` takes the
    /// unit and hands it back while it is still pending, or gives `None` once
    /// it has completed, and the unit then leaves the table. An unknown slot
    /// is a no-op: `poll` is not called and `false` comes back.
    pub fn poll_by_slot<F: FnOnce(T) -> Option<T>>(&mut self, slot: usize, poll: F) -> (r: bool)
        requires
            forall|t: T| poll.requires((t,)),
        ensures
            final(self).running() == old(self).running(),
            r == old(self)@.contains_key(slot),
            r ==> exists|outcome: Option<T>|
                #![trigger after_poll(old(self)@, slot, outcome)]
                poll.ensures((old(self)@[slot],), outcome) && final(self)@ == after_poll(
                    old(self)@,
                    slot,
                    outcome,
                ),
            !r ==> final(self)@ == old(self)@,
    {
        let ghost before = self@;
        match self.begin_poll(slot) {
            Some(task) => {
                assert(!old(self).running().contains(slot));
                let outcome = poll(task);
                let ghost out = outcome;
                self.end_poll(slot, outcome);
                assert(self.running() =~= old(self).running());
                assert(self@ =~= after_poll(before, slot, out));
                true
            },
            None => false,
        }
    }
}

} // verus!

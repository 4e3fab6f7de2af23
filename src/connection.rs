use crate::ids::{allocated, WindowIds};
use crate::registry::{edit_spec, lookup_spec, WindowRegistry};
use crate::tasks::{after_poll, TaskTable};
use std::collections::VecDeque;
use vstd::prelude::*;

verus! {

/// A task spawned under `slot`, into tasks `t` with poll requests `q`, is
/// pending and has a request in the FIFO, so the next drain of the FIFO polls
/// it at least once.
pub proof fn lemma_spawned_task_is_drained<T>(q: Seq<usize>, t: Map<usize, T>, slot: usize, task: T)
    ensures
        q.push(slot).contains(slot),
        t.insert(slot, task).contains_key(slot),
{
    assert(q.push(slot)[q.len() as int] == slot);
}

/// The state that one thread's native event loop works on: its windows, the
/// next window id, its pending tasks, and the FIFO of task slots waiting for
/// a poll. Work reaches the tasks only through that FIFO, in the order in
/// which it was posted.
pub struct Connection<W, T> {
    windows: WindowRegistry<W>,
    next_window_id: WindowIds,
    tasks: TaskTable<T>,
    wakes: VecDeque<usize>,
    stop_requested: bool,
}

impl<W, T> Connection<W, T> {
    pub closed spec fn wf(&self) -> bool {
        self.next_window_id.wf()
    }

    /// The live windows, by id.
    pub closed spec fn windows_view(&self) -> Map<usize, W> {
        self.windows@
    }

    /// The window-id allocator.
    pub closed spec fn ids(&self) -> WindowIds {
        self.next_window_id
    }

    /// The pending tasks, by slot.
    pub closed spec fn tasks_view(&self) -> Map<usize, T> {
        self.tasks@
    }

    /// The slots whose task is out for a poll.
    pub closed spec fn running_tasks(&self) -> Set<usize> {
        self.tasks.running()
    }

    /// The slots waiting for a poll, the oldest request first.
    pub closed spec fn queued(&self) -> Seq<usize> {
        self.wakes@
    }

    /// Whether the message loop has been asked to stop.
    pub closed spec fn stopping(&self) -> bool {
        self.stop_requested
    }

    pub fn create_new() -> (r: Connection<W, T>)
        ensures
            r.wf(),
            r.windows_view() == Map::<usize, W>::empty(),
            r.ids().next_id() == 1,
            r.ids().issued() == Set::<nat>::empty(),
            r.tasks_view() == Map::<usize, T>::empty(),
            r.running_tasks() == Set::<usize>::empty(),
            r.queued() == Seq::<usize>::empty(),
            !r.stopping(),
    {
        Connection {
            windows: WindowRegistry::new(),
            next_window_id: WindowIds::new(),
            tasks: TaskTable::new(),
            wakes: VecDeque::new(),
            stop_requested: false,
        }
    }

    /// A fresh window id (see `WindowIds::allocate_id`); nothing else changes.
    pub fn next_window_id(&mut self) -> (r: Option<usize>)
        requires
            old(self).wf(),
        ensures
            final(self).wf(),
            match r {
                Some(id) => allocated(old(self).ids(), final(self).ids(), id),
                None => {
                    &&& old(self).ids().next_id() == usize::MAX
                    &&& final(self).ids() == old(self).ids()
                },
            },
            final(self).windows_view() == old(self).windows_view(),
            final(self).tasks_view() == old(self).tasks_view(),
            final(self).running_tasks() == old(self).running_tasks(),
            final(self).queued() == old(self).queued(),
            final(self).stopping() == old(self).stopping(),
    {
        self.next_window_id.allocate_id()
    }

    /// Takes ownership of `window` under `id`; refused (`false`, nothing
    /// changes) where `id` is already registered.
    pub fn register_window(&mut self, id: usize, window: W) -> (r: bool)
        ensures
            r == !old(self).windows_view().contains_key(id),
            final(self).windows_view() == if r {
                old(self).windows_view().insert(id, window)
            } else {
                old(self).windows_view()
            },
            final(self).ids() == old(self).ids(),
            final(self).tasks_view() == old(self).tasks_view(),
            final(self).running_tasks() == old(self).running_tasks(),
            final(self).queued() == old(self).queued(),
            final(self).stopping() == old(self).stopping(),
    {
        self.windows.register(id, window)
    }

    /// The window under `id`, if it is still registered.
    pub fn window_by_id(&self, id: usize) -> (r: Option<&W>)
        ensures
            match r {
                Some(w) => lookup_spec(self.windows_view(), id) == Some(*w),
                None => lookup_spec(self.windows_view(), id) is None,
            },
    {
        self.windows.lookup(id)
    }

    /// The work that a posted window edit does when it runs on the loop
    /// thread: runs `f` on the window under `id`, at once, and keeps its
    /// result in its place. A window that is gone by then (never registered,
    /// or dropped when the message loop returned) is no error: nothing
    /// happens, `f` is not called, and `false` comes back.
    pub fn with_window_inner<F: FnOnce(W) -> W>(&mut self, id: usize, f: F) -> (r: bool)
        requires
            forall|w: W| f.requires((w,)),
        ensures
            r == old(self).windows_view().contains_key(id),
            r ==> exists|edited: W|
                #![trigger edit_spec(old(self).windows_view(), id, edited)]
                f.ensures((old(self).windows_view()[id],), edited) && final(self).windows_view()
                    == edit_spec(old(self).windows_view(), id, edited),
            !r ==> final(self).windows_view() == old(self).windows_view(),
            final(self).ids() == old(self).ids(),
            final(self).tasks_view() == old(self).tasks_view(),
            final(self).running_tasks() == old(self).running_tasks(),
            final(self).queued() == old(self).queued(),
            final(self).stopping() == old(self).stopping(),
    {
        self.windows.with_mutable(id, f)
    }

    /// Whether `slot` holds a pending task.
    pub fn is_task_pending(&self, slot: usize) -> (r: bool)
        ensures
            r == self.tasks_view().contains_key(slot),
    {
        self.tasks.is_pending(slot)
    }

    /// How many poll requests wait in the FIFO.
    pub fn queued_len(&self) -> (r: usize)
        ensures
            r == self.queued().len(),
    {
        self.wakes.len()
    }

    /// Stores `task` in the task table and posts a poll of its slot at the
    /// back of the FIFO, so that it gets its first poll even if nothing else
    /// wakes it. `None` comes back, and nothing changes, only where the task
    /// table has no free slot.
    pub fn spawn_task(&mut self, task: T) -> (r: Option<usize>)
        ensures
            match r {
                Some(slot) => {
                    &&& !old(self).tasks_view().contains_key(slot)
                    &&& !old(self).running_tasks().contains(slot)
                    &&& final(self).tasks_view() == old(self).tasks_view().insert(slot, task)
                    &&& final(self).queued() == old(self).queued().push(slot)
                },
                None => {
                    &&& forall|s: usize|
                        s < usize::MAX ==> old(self).tasks_view().contains_key(s)
                            || old(self).running_tasks().contains(s)
                    &&& final(self).tasks_view() == old(self).tasks_view()
                    &&& final(self).queued() == old(self).queued()
                },
            },
            final(self).running_tasks() == old(self).running_tasks(),
            final(self).windows_view() == old(self).windows_view(),
            final(self).ids() == old(self).ids(),
            final(self).stopping() == old(self).stopping(),
    {
        let r = self.tasks.add_task(task);
        if let Some(slot) = r {
            self.wakes.push_back(slot);
        }
        r
    }

    /// Posts a poll of `slot` at the back of the FIFO. The slot need not be
    /// pending: the poll is then a no-op when it runs.
    pub fn wake_task_by_id(&mut self, slot: usize)
        ensures
            final(self).queued() == old(self).queued().push(slot),
            final(self).windows_view() == old(self).windows_view(),
            final(self).ids() == old(self).ids(),
            final(self).tasks_view() == old(self).tasks_view(),
            final(self).running_tasks() == old(self).running_tasks(),
            final(self).stopping() == old(self).stopping(),
    {
        self.wakes.push_back(slot);
    }

    /// Runs the oldest poll request, polling its slot with `poll` (see
    /// `TaskTable::poll_by_slot`), and returns that slot; `None` where the
    /// FIFO is empty, and then nothing changes.
    pub fn run_queued_work<F: FnOnce(T) -> Option<T>>(&mut self, poll: F) -> (r: Option<usize>)
        requires
            forall|t: T| poll.requires((t,)),
        ensures
            match r {
                Some(slot) => {
                    &&& old(self).queued().len() > 0
                    &&& slot == old(self).queued()[0]
                    &&& final(self).queued() == old(self).queued().drop_first()
                    &&& old(self).tasks_view().contains_key(slot) ==> exists|outcome: Option<T>|
                        #![trigger after_poll(old(self).tasks_view(), slot, outcome)]
                        poll.ensures((old(self).tasks_view()[slot],), outcome)
                            && final(self).tasks_view() == after_poll(
                            old(self).tasks_view(),
                            slot,
                            outcome,
                        )
                    &&& !old(self).tasks_view().contains_key(slot) ==> final(self).tasks_view()
                        == old(self).tasks_view()
                },
                None => {
                    &&& old(self).queued().len() == 0
                    &&& final(self).queued() == old(self).queued()
                    &&& final(self).tasks_view() == old(self).tasks_view()
                },
            },
            final(self).running_tasks() == old(self).running_tasks(),
            final(self).windows_view() == old(self).windows_view(),
            final(self).ids() == old(self).ids(),
            final(self).stopping() == old(self).stopping(),
    {
        match self.wakes.pop_front() {
            Some(slot) => {
                self.tasks.poll_by_slot(slot, poll);
                Some(slot)
            },
            None => None,
        }
    }

    /// Runs every poll request in the FIFO, oldest first, polling with `poll`,
    /// until the FIFO is empty. Gives the slots whose task was pending when
    /// its request ran, in that order. Every task that was pending at the
    /// start and had a request in the FIFO is polled at least once.
    pub fn drain_queued_work<F: Fn(T) -> Option<T>>(&mut self, poll: &F) -> (polled: Vec<usize>)
        requires
            forall|t: T| poll.requires((t,)),
        ensures
            final(self).queued() == Seq::<usize>::empty(),
            forall|s: usize|
                old(self).queued().contains(s) && old(self).tasks_view().contains_key(s)
                    ==> #[trigger] polled@.contains(s),
            forall|s: usize| #[trigger] polled@.contains(s) ==> old(self).queued().contains(s),
            final(self).running_tasks() == old(self).running_tasks(),
            final(self).windows_view() == old(self).windows_view(),
            final(self).ids() == old(self).ids(),
            final(self).stopping() == old(self).stopping(),
    {
        let mut polled: Vec<usize> = Vec::new();
        let ghost q0 = self.queued();
        let ghost t0 = self.tasks_view();
        let ghost mut k: int = 0;
        loop
            invariant
                0 <= k <= q0.len(),
                self.queued() == q0.subrange(k, q0.len() as int),
                forall|t: T| poll.requires((t,)),
                forall|s: usize|
                    q0.subrange(0, k).contains(s) && t0.contains_key(s) ==> #[trigger] polled@.contains(
                        s,
                    ),
                forall|s: usize|
                    t0.contains_key(s) && !polled@.contains(s) ==> #[trigger] self.tasks_view().contains_key(
                        s,
                    ),
                forall|s: usize| #[trigger] polled@.contains(s) ==> q0.contains(s),
                self.running_tasks() == old(self).running_tasks(),
                self.windows_view() == old(self).windows_view(),
                self.ids() == old(self).ids(),
                self.stopping() == old(self).stopping(),
            ensures
                self.queued() == Seq::<usize>::empty(),
                forall|s: usize|
                    q0.contains(s) && t0.contains_key(s) ==> #[trigger] polled@.contains(s),
                forall|s: usize| #[trigger] polled@.contains(s) ==> q0.contains(s),
                self.running_tasks() == old(self).running_tasks(),
                self.windows_view() == old(self).windows_view(),
                self.ids() == old(self).ids(),
                self.stopping() == old(self).stopping(),
            decreases q0.len() - k,
        {
            let front = self.next_queued();
            match front {
                None => {
                    assert(k == q0.len());
                    assert(q0.subrange(0, k) =~= q0);
                    assert(self.queued() =~= Seq::<usize>::empty());
                    break;
                },
                Some(slot) => {
                    let pending = self.is_task_pending(slot);
                    let ghost before = self.tasks_view();
                    let ghost old_polled = polled@;
                    let step = |t: T| -> (o: Option<T>)
                        requires
                            poll.requires((t,)),
                        ensures
                            poll.ensures((t,), o),
                        { poll(t) };
                    self.run_queued_work(step);
                    if pending {
                        polled.push(slot);
                    }
                    proof {
                        assert(q0[k] == slot);
                        if pending {
                            assert(polled@ == old_polled.push(slot));
                            assert(polled@[polled@.len() - 1] == slot);
                        } else {
                            assert(polled@ == old_polled);
                        }
                        assert forall|s: usize| old_polled.contains(s) implies polled@.contains(
                            s,
                        ) by {
                            let i = choose|i: int| 0 <= i < old_polled.len() && old_polled[i] == s;
                            assert(polled@[i] == s);
                        }
                        assert forall|s: usize| #[trigger] polled@.contains(s) implies q0.contains(
                            s,
                        ) by {
                            let i = choose|i: int| 0 <= i < polled@.len() && polled@[i] == s;
                            if i < old_polled.len() {
                                assert(old_polled[i] == s);
                                assert(old_polled.contains(s));
                            } else {
                                assert(s == slot);
                                assert(q0[k] == s);
                            }
                        }
                        assert forall|s: usize| s != slot implies self.tasks_view().contains_key(s)
                            == before.contains_key(s) by {
                            if before.contains_key(slot) {
                                let o = choose|o: Option<T>|
                                    #![trigger after_poll(before, slot, o)]
                                    poll.ensures((before[slot],), o) && self.tasks_view()
                                        == after_poll(before, slot, o);
                                assert(self.tasks_view() == after_poll(before, slot, o));
                            }
                        }
                        assert(q0[k] == slot);
                        assert(q0.subrange(0, k + 1) =~= q0.subrange(0, k).push(slot));
                        assert(q0.subrange(k + 1, q0.len() as int) =~= q0.subrange(
                            k,
                            q0.len() as int,
                        ).drop_first());
                        assert(q0.subrange(k, q0.len() as int)[0] == q0[k]);
                        assert forall|s: usize|
                            t0.contains_key(s) && !polled@.contains(s) implies #[trigger] self.tasks_view().contains_key(
                            s,
                        ) by {
                            if s == slot {
                                assert(polled@.contains(slot) || !pending);
                                assert(!before.contains_key(s));
                            } else {
                                assert(!old_polled.contains(s)) by {
                                    if old_polled.contains(s) {
                                        let i = choose|i: int|
                                            0 <= i < old_polled.len() && old_polled[i] == s;
                                        assert(polled@[i] == s);
                                    }
                                }
                            }
                        }
                        assert forall|s: usize|
                            q0.subrange(0, k + 1).contains(s) && t0.contains_key(
                                s,
                            ) implies #[trigger] polled@.contains(s) by {
                            if s != slot {
                                let pre = q0.subrange(0, k + 1);
                                let i = choose|i: int| 0 <= i < pre.len() && #[trigger] pre[i] == s;
                                assert(q0.subrange(0, k)[i] == s);
                                assert(q0.subrange(0, k).contains(s));
                                assert(old_polled.contains(s));
                            } else if !pending {
                                assert(!before.contains_key(s));
                                assert(old_polled.contains(s));
                            }
                        }
                        k = k + 1;
                    }
                },
            }
        }
        polled
    }

    /// The slot of the oldest poll request, if any.
    pub fn next_queued(&self) -> (r: Option<usize>)
        ensures
            r == if self.queued().len() > 0 {
                Some(self.queued()[0])
            } else {
                None::<usize>
            },
    {
        if self.wakes.len() > 0 {
            Some(self.wakes[0])
        } else {
            None
        }
    }

    /// Whether the task in `slot` is out for a poll.
    pub fn is_task_running(&self, slot: usize) -> (r: bool)
        ensures
            r == self.running_tasks().contains(slot),
    {
        self.tasks.is_running(slot)
    }

    /// Removes the oldest poll request and takes its task out for the poll,
    /// reserving its slot (see `TaskTable::begin_poll`). Gives the slot and
    /// the task; the task is `None` where the slot holds no pending task, and
    /// then the table is unchanged. `None` where the FIFO is empty, and then
    /// nothing changes.
    pub fn take_queued_task(&mut self) -> (r: Option<(usize, Option<T>)>)
        ensures
            match r {
                Some((slot, task)) => {
                    &&& old(self).queued().len() > 0
                    &&& slot == old(self).queued()[0]
                    &&& final(self).queued() == old(self).queued().drop_first()
                    &&& task == lookup_spec(old(self).tasks_view(), slot)
                    &&& task is Some ==> final(self).tasks_view() == old(
                        self,
                    ).tasks_view().remove(slot) && final(self).running_tasks() == old(
                        self,
                    ).running_tasks().insert(slot)
                    &&& task is None ==> final(self).tasks_view() == old(self).tasks_view()
                        && final(self).running_tasks() == old(self).running_tasks()
                },
                None => {
                    &&& old(self).queued().len() == 0
                    &&& final(self).queued() == old(self).queued()
                    &&& final(self).tasks_view() == old(self).tasks_view()
                    &&& final(self).running_tasks() == old(self).running_tasks()
                },
            },
            final(self).windows_view() == old(self).windows_view(),
            final(self).ids() == old(self).ids(),
            final(self).stopping() == old(self).stopping(),
    {
        match self.wakes.pop_front() {
            Some(slot) => {
                let task = self.tasks.begin_poll(slot);
                Some((slot, task))
            },
            None => None,
        }
    }

    /// Ends the poll of the task taken out of `slot`: it is pending there
    /// again where the poll handed it back, and gone where it completed.
    pub fn finish_task_poll(&mut self, slot: usize, outcome: Option<T>)
        requires
            old(self).running_tasks().contains(slot),
        ensures
            final(self).running_tasks() == old(self).running_tasks().remove(slot),
            final(self).tasks_view() == match outcome {
                Some(t) => old(self).tasks_view().insert(slot, t),
                None => old(self).tasks_view(),
            },
            final(self).queued() == old(self).queued(),
            final(self).windows_view() == old(self).windows_view(),
            final(self).ids() == old(self).ids(),
            final(self).stopping() == old(self).stopping(),
    {
        self.tasks.end_poll(slot, outcome);
    }

    /// Asks the message loop to stop at its next opportunity.
    pub fn terminate_message_loop(&mut self)
        ensures
            final(self).stopping(),
            final(self).windows_view() == old(self).windows_view(),
            final(self).ids() == old(self).ids(),
            final(self).tasks_view() == old(self).tasks_view(),
            final(self).running_tasks() == old(self).running_tasks(),
            final(self).queued() == old(self).queued(),
    {
        self.stop_requested = true;
    }

    /// What happens once the message loop has returned: every window is
    /// dropped, and the loop may be run again.
    pub fn finish_message_loop(&mut self)
        ensures
            final(self).windows_view() == Map::<usize, W>::empty(),
            !final(self).stopping(),
            final(self).ids() == old(self).ids(),
            final(self).tasks_view() == old(self).tasks_view(),
            final(self).running_tasks() == old(self).running_tasks(),
            final(self).queued() == old(self).queued(),
    {
        self.windows.clear_all();
        self.stop_requested = false;
    }
}

} // verus!

use std::collections::HashMap;
use vstd::prelude::*;

verus! {

broadcast use vstd::std_specs::hash::group_hash_axioms;

/// What a lookup of `id` in the registry `m` gives.
pub open spec fn lookup_spec<W>(m: Map<usize, W>, id: usize) -> Option<W> {
    if m.contains_key(id) {
        Some(m[id])
    } else {
        None
    }
}

/// The registry `m` after the window under `id`, if any, became `edited`.
pub open spec fn edit_spec<W>(m: Map<usize, W>, id: usize, edited: W) -> Map<usize, W> {
    if m.contains_key(id) {
        m.insert(id, edited)
    } else {
        m
    }
}

/// A window registered under an id that was free is what a lookup of that
/// id then gives.
pub proof fn lemma_register_then_lookup<W>(m: Map<usize, W>, id: usize, window: W)
    requires
        !m.contains_key(id),
    ensures
        lookup_spec(m.insert(id, window), id) == Some(window),
{
}

/// An edit of an id under which no window is registered (never registered,
/// or cleared) leaves the registry as it was.
pub proof fn lemma_edit_missing_is_noop<W>(m: Map<usize, W>, id: usize, edited: W)
    requires
        !m.contains_key(id),
    ensures
        edit_spec(m, id, edited) == m,
{
}

/// The registry `m` once every window is dropped.
pub open spec fn cleared<W>(m: Map<usize, W>) -> Map<usize, W> {
    Map::empty()
}

/// After the registry `m` is cleared, a lookup of any id gives nothing and an
/// edit of any id changes nothing.
pub proof fn lemma_cleared_lookup_empty<W>(m: Map<usize, W>, id: usize, edited: W)
    ensures
        lookup_spec(cleared(m), id) is None,
        edit_spec(cleared(m), id, edited) == cleared(m),
{
}

/// The live windows of a connection, each under its id.
pub struct WindowRegistry<W> {
    windows: HashMap<usize, W>,
}

impl<W> View for WindowRegistry<W> {
    type V = Map<usize, W>;

    closed spec fn view(&self) -> Map<usize, W> {
        self.windows@
    }
}

impl<W> WindowRegistry<W> {
    pub fn new() -> (r: WindowRegistry<W>)
        ensures
            r@ == Map::<usize, W>::empty(),
    {
        WindowRegistry { windows: HashMap::new() }
    }

    /// Takes ownership of `window` under `id`. An `id` that is already
    /// present is refused: the registry is left as it was and `false` comes back.
    pub fn register(&mut self, id: usize, window: W) -> (r: bool)
        ensures
            r == !old(self)@.contains_key(id),
            final(self)@ == if r {
                old(self)@.insert(id, window)
            } else {
                old(self)@
            },
    {
        if self.windows.contains_key(&id) {
            false
        } else {
            self.windows.insert(id, window);
            true
        }
    }

    /// The window under `id`, if there is one.
    pub fn lookup(&self, id: usize) -> (r: Option<&W>)
        ensures
            match r {
                Some(w) => lookup_spec(self@, id) == Some(*w),
                None => lookup_spec(self@, id) is None,
            },
    {
        self.windows.get(&id)
    }

    /// Whether a window is registered under `id`.
    pub fn contains(&self, id: usize) -> (r: bool)
        ensures
            r == self@.contains_key(id),
    {
        self.windows.contains_key(&id)
    }

    /// Hands the window under `id` to `f` and keeps what `f` gives back in its
    /// place. Where no window is registered under `id`, nothing happens and
    /// `f` is not called; `false` then comes back.
    pub fn with_mutable<F: FnOnce(W) -> W>(&mut self, id: usize, f: F) -> (r: bool)
        requires
            forall|w: W| f.requires((w,)),
        ensures
            r == old(self)@.contains_key(id),
            r ==> exists|edited: W|
                #![trigger edit_spec(old(self)@, id, edited)]
                f.ensures((old(self)@[id],), edited) && final(self)@ == edit_spec(
                    old(self)@,
                    id,
                    edited,
                ),
            !r ==> final(self)@ == old(self)@,
    {
        match self.windows.remove(&id) {
            Some(w) => {
                let edited = f(w);
                self.windows.insert(id, edited);
                proof {
                    assert(self@ == edit_spec(old(self)@, id, edited));
                }
                true
            },
            None => false,
        }
    }

    /// Drops every window.
    pub fn clear_all(&mut self)
        ensures
            final(self)@ == cleared(old(self)@),
    {
        self.windows.clear();
    }
}

} // verus!

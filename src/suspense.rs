//! A reactive scope that owns resources, and suspense boundaries that
//! observe some of them without owning them.
//!
//! A boundary keeps only the ids of the resources read beneath it, and its
//! pending count is computed from their states each time it is asked for:
//! it is never stored, so it cannot drift from them. A resource read inside
//! a nested boundary is registered with that boundary alone.
use crate::gateway::GatewayError;
use crate::resource::{LoadRequest, Resource, ResourceState, ResourceView};
use vstd::prelude::*;

verus! {

/// The resources of one reactive scope, in creation order; a resource's id
/// is its position.
pub struct Scope<T> {
    resources: Vec<Resource<T>>,
}

impl<T> View for Scope<T> {
    type V = Seq<ResourceView<T>>;

    closed spec fn view(&self) -> Seq<ResourceView<T>> {
        self.resources@.map_values(|r: Resource<T>| r@)
    }
}

pub open spec fn scope_wf<T>(s: Seq<ResourceView<T>>) -> bool {
    forall|i: int| 0 <= i < s.len() ==> (#[trigger] s[i]).wf()
}

impl<T> Scope<T> {
    pub fn new() -> (r: Scope<T>)
        ensures
            r@ == Seq::<ResourceView<T>>::empty(),
    {
        let r = Scope { resources: Vec::new() };
        assert(r@ =~= Seq::<ResourceView<T>>::empty());
        r
    }

    pub fn len(&self) -> (r: usize)
        ensures
            r == self@.len(),
    {
        self.resources.len()
    }

    /// Creates a resource on `key` and returns its id.
    pub fn create(&mut self, key: String) -> (id: usize)
        ensures
            id == old(self)@.len(),
            final(self)@ == old(self)@.push(
                ResourceView { key: key@, generation: 0, disposed: false, state: ResourceState::Idle },
            ),
    {
        let id = self.resources.len();
        self.resources.push(Resource::new(key));
        assert(self@ =~= old(self)@.push(
            ResourceView { key: key@, generation: 0, disposed: false, state: ResourceState::Idle },
        ));
        id
    }

    pub fn resource(&self, id: usize) -> (r: &Resource<T>)
        requires
            id < self@.len(),
        ensures
            r@ == self@[id as int],
    {
        &self.resources[id]
    }

    /// First subscription of resource `id`; nothing happens for an unknown id.
    pub fn mount(&mut self, id: usize) -> (q: Option<LoadRequest>)
        requires
            id < old(self)@.len() ==> old(self)@[id as int].can_begin(),
        ensures
            id < old(self)@.len() ==> final(self)@ == old(self)@.update(
                id as int,
                old(self)@[id as int].mounted(),
            ),
            id >= old(self)@.len() ==> final(self)@ == old(self)@ && q is None,
            id < old(self)@.len() ==> (q is Some <==> (!old(self)@[id as int].disposed
                && old(self)@[id as int].state is Idle)),
            q matches Some(q) ==> q.generation == final(self)@[id as int].generation && q.key@
                == final(self)@[id as int].key,
    {
        if id >= self.resources.len() {
            return None;
        }
        let q = self.resources[id].mount();
        assert(self@ =~= old(self)@.update(id as int, old(self)@[id as int].mounted()));
        q
    }

    /// The source of resource `id` produced `key`; nothing happens for an
    /// unknown id.
    pub fn set_source(&mut self, id: usize, key: String) -> (q: Option<LoadRequest>)
        requires
            id < old(self)@.len() ==> old(self)@[id as int].can_begin(),
        ensures
            id < old(self)@.len() ==> final(self)@ == old(self)@.update(
                id as int,
                old(self)@[id as int].source_changed(key@),
            ),
            id >= old(self)@.len() ==> final(self)@ == old(self)@ && q is None,
            id < old(self)@.len() ==> (q is Some <==> (!old(self)@[id as int].disposed && key@
                != old(self)@[id as int].key)),
            q matches Some(q) ==> q.generation == final(self)@[id as int].generation && q.key@
                == key@,
    {
        if id >= self.resources.len() {
            return None;
        }
        let q = self.resources[id].set_source(key);
        assert(self@ =~= old(self)@.update(id as int, old(self)@[id as int].source_changed(key@)));
        q
    }

    /// The loader of resource `id` settled with `outcome` for generation
    /// `generation`. Returns whether it was taken.
    pub fn settle(&mut self, id: usize, generation: u64, outcome: Result<T, GatewayError>) -> (taken:
        bool)
        ensures
            id < old(self)@.len() ==> final(self)@ == old(self)@.update(
                id as int,
                old(self)@[id as int].settled(generation, outcome),
            ),
            id >= old(self)@.len() ==> final(self)@ == old(self)@ && !taken,
            id < old(self)@.len() ==> taken == old(self)@[id as int].accepts(generation),
    {
        if id >= self.resources.len() {
            return false;
        }
        let taken = self.resources[id].settle(generation, outcome);
        assert(self@ =~= old(self)@.update(
            id as int,
            old(self)@[id as int].settled(generation, outcome),
        ));
        taken
    }

    /// Seeds resource `id` with the server's outcome of its load
    /// `generation`. Returns whether it was taken.
    pub fn seed(&mut self, id: usize, generation: u64, outcome: Result<T, GatewayError>) -> (taken:
        bool)
        ensures
            id < old(self)@.len() ==> final(self)@ == old(self)@.update(
                id as int,
                old(self)@[id as int].seeded(generation, outcome),
            ),
            id >= old(self)@.len() ==> final(self)@ == old(self)@ && !taken,
            id < old(self)@.len() ==> taken == old(self)@[id as int].seedable(),
    {
        if id >= self.resources.len() {
            return false;
        }
        let taken = self.resources[id].seed(generation, outcome);
        assert(self@ =~= old(self)@.update(
            id as int,
            old(self)@[id as int].seeded(generation, outcome),
        ));
        taken
    }

    /// Disposes the scope: every resource in it stops taking outcomes.
    pub fn dispose(&mut self)
        ensures
            final(self)@.len() == old(self)@.len(),
            forall|i: int|
                0 <= i < old(self)@.len() ==> #[trigger] final(self)@[i] == (ResourceView {
                    disposed: true,
                    ..old(self)@[i]
                }),
    {
        let n = self.resources.len();
        let mut i: usize = 0;
        while i < n
            invariant
                n == old(self)@.len(),
                self@.len() == n,
                0 <= i <= n,
                forall|j: int|
                    0 <= j < i ==> #[trigger] self@[j] == (ResourceView {
                        disposed: true,
                        ..old(self)@[j]
                    }),
                forall|j: int| i <= j < n ==> #[trigger] self@[j] == old(self)@[j],
            decreases n - i,
        {
            let ghost before = self@;
            self.resources[i].dispose();
            assert(self@ =~= before.update(i as int, ResourceView { disposed: true, ..before[i as int] }));
            i = i + 1;
        }
    }
}

/// Which side of the network a boundary renders on.
#[derive(Clone, Copy, Debug, PartialEq, Eq)]
pub enum Side {
    /// Builds the complete document before responding.
    Producing,
    /// Shows a page the user interacts with.
    Displaying,
}

/// What a boundary shows right now.
#[derive(Clone, Copy, Debug, PartialEq, Eq)]
pub enum Render {
    Fallback,
    Children,
    /// Hold the document back until the pending loads settle.
    Wait,
}

/// Whether resource `id` is registered in a scope and loading.
pub open spec fn is_pending<T>(states: Seq<ResourceView<T>>, id: usize) -> bool {
    id < states.len() && states[id as int].state is Pending
}

/// How many of the resources `ids` are loading.
pub open spec fn pending_in<T>(ids: Seq<usize>, states: Seq<ResourceView<T>>) -> nat
    decreases ids.len(),
{
    if ids.len() == 0 {
        0
    } else {
        pending_in(ids.drop_last(), states) + if is_pending(states, ids.last()) {
            1nat
        } else {
            0nat
        }
    }
}

/// What a boundary with `pending` loads outstanding shows on `side`.
pub open spec fn render_for(pending: nat, side: Side) -> Render {
    if pending == 0 {
        Render::Children
    } else if side == Side::Producing {
        Render::Wait
    } else {
        Render::Fallback
    }
}

/// The resources read beneath one suspense boundary, by id. Registration
/// lasts as long as the boundary is mounted.
pub struct SuspenseBoundary {
    registered: Vec<usize>,
}

impl View for SuspenseBoundary {
    type V = Seq<usize>;

    closed spec fn view(&self) -> Seq<usize> {
        self.registered@
    }
}

impl SuspenseBoundary {
    pub fn new() -> (r: SuspenseBoundary)
        ensures
            r@ == Seq::<usize>::empty(),
    {
        SuspenseBoundary { registered: Vec::new() }
    }

    /// Records that resource `id` was read beneath this boundary; a
    /// resource read again is not counted twice.
    pub fn register(&mut self, id: usize)
        ensures
            final(self)@ == if old(self)@.contains(id) {
                old(self)@
            } else {
                old(self)@.push(id)
            },
    {
        let n = self.registered.len();
        let mut i: usize = 0;
        while i < n
            invariant
                n == self@.len(),
                self@ == old(self)@,
                0 <= i <= n,
                forall|j: int| 0 <= j < i ==> self@[j] != id,
            decreases n - i,
        {
            if self.registered[i] == id {
                return;
            }
            i = i + 1;
        }
        self.registered.push(id);
    }

    /// The number of registered resources of `scope` that are loading.
    pub fn pending_count<T>(&self, scope: &Scope<T>) -> (r: usize)
        ensures
            r == pending_in(self@, scope@),
    {
        let n = self.registered.len();
        let mut count: usize = 0;
        let mut i: usize = 0;
        while i < n
            invariant
                n == self@.len(),
                0 <= i <= n,
                count == pending_in(self@.subrange(0, i as int), scope@),
                count <= i,
            decreases n - i,
        {
            let id = self.registered[i];
            assert(self@.subrange(0, i + 1).drop_last() =~= self@.subrange(0, i as int));
            if id < scope.len() {
                if matches!(scope.resource(id).read(), ResourceState::Pending { .. }) {
                    count = count + 1;
                }
            }
            i = i + 1;
        }
        assert(self@.subrange(0, n as int) =~= self@);
        count
    }

    /// What the boundary shows on `side`: the children once nothing
    /// registered is loading; before that the fallback, or, on the side
    /// that builds the whole document, a wait.
    pub fn render<T>(&self, scope: &Scope<T>, side: Side) -> (r: Render)
        ensures
            r == render_for(pending_in(self@, scope@), side),
    {
        if self.pending_count(scope) == 0 {
            Render::Children
        } else {
            match side {
                Side::Producing => Render::Wait,
                Side::Displaying => Render::Fallback,
            }
        }
    }
}

/// The pending count is zero exactly when no registered resource is
/// loading.
pub proof fn lemma_pending_zero_iff_none_loading<T>(ids: Seq<usize>, states: Seq<ResourceView<T>>)
    ensures
        pending_in(ids, states) == 0 <==> forall|j: int|
            0 <= j < ids.len() ==> !is_pending(states, #[trigger] ids[j]),
    decreases ids.len(),
{
    if ids.len() > 0 {
        let init = ids.drop_last();
        lemma_pending_zero_iff_none_loading(init, states);
        if pending_in(ids, states) == 0 {
            assert forall|j: int| 0 <= j < ids.len() implies !is_pending(states, #[trigger] ids[j]) by {
                if j < ids.len() - 1 {
                    assert(init[j] == ids[j]);
                }
            }
        } else if forall|j: int| 0 <= j < ids.len() ==> !is_pending(states, #[trigger] ids[j]) {
            assert forall|j: int| 0 <= j < init.len() implies !is_pending(states, #[trigger] init[j]) by {
                assert(init[j] == ids[j]);
            }
            assert(!is_pending(states, ids[ids.len() - 1]));
        }
    }
}

} // verus!

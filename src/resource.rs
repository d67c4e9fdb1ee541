//! A resource: a value loaded asynchronously from a source key, whose
//! settlements are guarded by a generation counter.
//!
//! The resource itself never waits. Starting a load hands back a
//! `LoadRequest`; whoever runs the loader reports its outcome through
//! `settle`, tagged with the request's generation.
use crate::gateway::GatewayError;
use vstd::prelude::*;

verus! {

/// What a reader of a resource sees.
#[derive(Debug)]
pub enum ResourceState<T> {
    Idle,
    Pending { generation: u64 },
    Resolved { generation: u64, value: T },
    Errored { generation: u64, error: GatewayError },
}

/// A load to run: call the loader on `key`, then settle with `generation`.
#[derive(Debug)]
pub struct LoadRequest {
    pub generation: u64,
    pub key: String,
}

/// The abstract contents of a resource.
pub struct ResourceView<T> {
    pub key: Seq<char>,
    pub generation: u64,
    pub disposed: bool,
    pub state: ResourceState<T>,
}

pub struct Resource<T> {
    key: String,
    generation: u64,
    disposed: bool,
    state: ResourceState<T>,
}

impl<T> View for Resource<T> {
    type V = ResourceView<T>;

    closed spec fn view(&self) -> ResourceView<T> {
        ResourceView {
            key: self.key@,
            generation: self.generation,
            disposed: self.disposed,
            state: self.state,
        }
    }
}

/// The generation a state is tagged with; `Idle` carries none.
pub open spec fn state_generation<T>(s: ResourceState<T>) -> Option<u64> {
    match s {
        ResourceState::Idle => None,
        ResourceState::Pending { generation } => Some(generation),
        ResourceState::Resolved { generation, .. } => Some(generation),
        ResourceState::Errored { generation, .. } => Some(generation),
    }
}

/// The state a loader outcome settles into.
pub open spec fn settled_state<T>(g: u64, outcome: Result<T, GatewayError>) -> ResourceState<T> {
    match outcome {
        Ok(value) => ResourceState::Resolved { generation: g, value },
        Err(error) => ResourceState::Errored { generation: g, error },
    }
}

impl<T> ResourceView<T> {
    /// Whatever is observed is tagged with the current generation.
    pub open spec fn wf(self) -> bool {
        state_generation(self.state) matches Some(g) ==> g == self.generation
    }

    /// Whether a new load can be numbered.
    pub open spec fn can_begin(self) -> bool {
        self.generation < u64::MAX
    }

    /// A fresh load of `key` under the next generation.
    pub open spec fn begin(self, key: Seq<char>) -> ResourceView<T> {
        ResourceView {
            key,
            generation: (self.generation + 1) as u64,
            disposed: self.disposed,
            state: ResourceState::Pending { generation: (self.generation + 1) as u64 },
        }
    }

    /// Effect of the first subscription: an idle, live resource starts loading.
    pub open spec fn mounted(self) -> ResourceView<T> {
        if !self.disposed && matches!(self.state, ResourceState::Idle) {
            self.begin(self.key)
        } else {
            self
        }
    }

    /// Effect of the source producing `key`: a live resource whose key
    /// changed starts loading it.
    pub open spec fn source_changed(self, key: Seq<char>) -> ResourceView<T> {
        if !self.disposed && key != self.key {
            self.begin(key)
        } else {
            self
        }
    }

    /// Whether a settlement tagged `g` takes effect: only the load in flight
    /// under the current generation, and only while the resource lives.
    pub open spec fn accepts(self, g: u64) -> bool {
        !self.disposed && self.state == ResourceState::<T>::Pending { generation: g }
    }

    /// Effect of a loader settling with `outcome` under generation `g`.
    pub open spec fn settled(self, g: u64, outcome: Result<T, GatewayError>) -> ResourceView<T> {
        if self.accepts(g) {
            ResourceView { state: settled_state(g, outcome), ..self }
        } else {
            self
        }
    }

    /// Whether a seed from the server may be taken: only before any load.
    pub open spec fn seedable(self) -> bool {
        !self.disposed && self.state is Idle
    }

    /// Effect of seeding the settled outcome of the server's load `g`.
    pub open spec fn seeded(self, g: u64, outcome: Result<T, GatewayError>) -> ResourceView<T> {
        if self.seedable() {
            ResourceView { generation: g, state: settled_state(g, outcome), ..self }
        } else {
            self
        }
    }
}

impl<T> Resource<T> {
    /// A live, idle resource on `key` that has not loaded anything yet.
    pub fn new(key: String) -> (r: Resource<T>)
        ensures
            r@ == (ResourceView::<T> {
                key: key@,
                generation: 0,
                disposed: false,
                state: ResourceState::Idle,
            }),
    {
        Resource { key, generation: 0, disposed: false, state: ResourceState::Idle }
    }

    fn start(&mut self) -> (q: LoadRequest)
        requires
            old(self)@.can_begin(),
        ensures
            final(self)@ == old(self)@.begin(old(self)@.key),
            q.generation == final(self)@.generation,
            q.key@ == final(self)@.key,
    {
        self.generation = self.generation + 1;
        self.state = ResourceState::Pending { generation: self.generation };
        LoadRequest { generation: self.generation, key: self.key.clone() }
    }

    /// First subscription: starts the load of the current key unless the
    /// resource already holds a state (for instance a seeded one) or was
    /// disposed.
    pub fn mount(&mut self) -> (q: Option<LoadRequest>)
        requires
            old(self)@.can_begin(),
        ensures
            final(self)@ == old(self)@.mounted(),
            q is Some <==> (!old(self)@.disposed && old(self)@.state is Idle),
            q matches Some(q) ==> q.generation == final(self)@.generation && q.key@
                == final(self)@.key,
    {
        if !self.disposed && matches!(self.state, ResourceState::Idle) {
            Some(self.start())
        } else {
            None
        }
    }

    /// The source produced `key`: when it differs from the current key, a
    /// new load starts and every load still in flight becomes stale.
    pub fn set_source(&mut self, key: String) -> (q: Option<LoadRequest>)
        requires
            old(self)@.can_begin(),
        ensures
            final(self)@ == old(self)@.source_changed(key@),
            q is Some <==> (!old(self)@.disposed && key@ != old(self)@.key),
            q matches Some(q) ==> q.generation == final(self)@.generation && q.key@ == key@,
    {
        if self.disposed || self.key == key {
            None
        } else {
            self.key = key;
            Some(self.start())
        }
    }

    /// A loader settled with `outcome` for the load tagged `generation`.
    /// Returns whether the outcome was taken; a stale or late one is dropped.
    pub fn settle(&mut self, generation: u64, outcome: Result<T, GatewayError>) -> (taken: bool)
        ensures
            final(self)@ == old(self)@.settled(generation, outcome),
            taken == old(self)@.accepts(generation),
    {
        let live = match &self.state {
            ResourceState::Pending { generation: g } => !self.disposed && *g == generation,
            _ => false,
        };
        if live {
            self.state = match outcome {
                Ok(value) => ResourceState::Resolved { generation, value },
                Err(error) => ResourceState::Errored { generation, error },
            };
        }
        live
    }

    /// Takes the server's settled outcome of its load `generation` without
    /// running the loader. Returns whether it was taken.
    pub fn seed(&mut self, generation: u64, outcome: Result<T, GatewayError>) -> (taken: bool)
        ensures
            final(self)@ == old(self)@.seeded(generation, outcome),
            taken == old(self)@.seedable(),
    {
        if !self.disposed && matches!(self.state, ResourceState::Idle) {
            self.generation = generation;
            self.state = match outcome {
                Ok(value) => ResourceState::Resolved { generation, value },
                Err(error) => ResourceState::Errored { generation, error },
            };
            true
        } else {
            false
        }
    }

    /// The owning scope went away: no load may write to this resource again.
    pub fn dispose(&mut self)
        ensures
            final(self)@ == (ResourceView { disposed: true, ..old(self)@ }),
    {
        self.disposed = true;
    }

    /// The current state, without waiting.
    pub fn read(&self) -> (r: &ResourceState<T>)
        ensures
            *r == self@.state,
    {
        &self.state
    }

    pub fn generation(&self) -> (r: u64)
        ensures
            r == self@.generation,
    {
        self.generation
    }

    pub fn key(&self) -> (r: &str)
        ensures
            r@ == self@.key,
    {
        self.key.as_str()
    }

    pub fn is_disposed(&self) -> (r: bool)
        ensures
            r == self@.disposed,
    {
        self.disposed
    }
}

} // verus!

verus! {

/// The resource after its source produced each of `keys` in turn.
pub open spec fn after_changes<T>(v: ResourceView<T>, keys: Seq<Seq<char>>) -> ResourceView<T>
    decreases keys.len(),
{
    if keys.len() == 0 {
        v
    } else {
        after_changes(v.source_changed(keys[0]), keys.drop_first())
    }
}

/// Every transition keeps what is observed tagged with the current
/// generation.
pub proof fn lemma_transitions_keep_wf<T>(
    v: ResourceView<T>,
    key: Seq<char>,
    g: u64,
    outcome: Result<T, GatewayError>,
)
    requires
        v.wf(),
    ensures
        v.mounted().wf(),
        v.source_changed(key).wf(),
        v.settled(g, outcome).wf(),
        v.seeded(g, outcome).wf(),
        (ResourceView { disposed: true, ..v }).wf(),
{
}

/// An outcome tagged with any generation but the current one is dropped:
/// the resource stays exactly as it was.
pub proof fn lemma_stale_outcome_discarded<T>(
    v: ResourceView<T>,
    g: u64,
    outcome: Result<T, GatewayError>,
)
    requires
        v.wf(),
        g != v.generation,
    ensures
        v.settled(g, outcome) == v,
{
}

/// Over any run of source changes, the generation never goes back, what is
/// observed carries the current generation, and the late outcome of any
/// load started before the current one is dropped.
pub proof fn lemma_rapid_changes<T>(
    v: ResourceView<T>,
    keys: Seq<Seq<char>>,
    g: u64,
    outcome: Result<T, GatewayError>,
)
    requires
        v.wf(),
        v.generation + keys.len() <= u64::MAX,
        g < after_changes(v, keys).generation,
    ensures
        after_changes(v, keys).generation >= v.generation,
        after_changes(v, keys).wf(),
        after_changes(v, keys).settled(g, outcome) == after_changes(v, keys),
    decreases keys.len(),
{
    if keys.len() > 0 {
        let w = v.source_changed(keys[0]);
        lemma_monotone(w, keys.drop_first());
        if g < after_changes(w, keys.drop_first()).generation {
            lemma_rapid_changes(w, keys.drop_first(), g, outcome);
        }
    }
}

proof fn lemma_monotone<T>(v: ResourceView<T>, keys: Seq<Seq<char>>)
    requires
        v.wf(),
        v.generation + keys.len() <= u64::MAX,
    ensures
        after_changes(v, keys).generation >= v.generation,
        after_changes(v, keys).wf(),
    decreases keys.len(),
{
    if keys.len() > 0 {
        lemma_monotone(v.source_changed(keys[0]), keys.drop_first());
    }
}

/// Once disposed, a resource never changes again: late outcomes, seeds,
/// source changes and subscriptions all leave it as it was.
pub proof fn lemma_disposed_frozen<T>(
    v: ResourceView<T>,
    key: Seq<char>,
    g: u64,
    outcome: Result<T, GatewayError>,
)
    requires
        v.disposed,
    ensures
        v.settled(g, outcome) == v,
        v.seeded(g, outcome) == v,
        v.source_changed(key) == v,
        v.mounted() == v,
{
}

} // verus!

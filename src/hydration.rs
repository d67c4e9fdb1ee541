//! The hydration synchronizer: seeds the client's resources, in creation
//! order, with the outcomes the server embedded next to its markup, so that
//! their first paint needs no remote call.
//!
//! An envelope whose contents do not decode is reported as a mismatch and
//! the resource is left untouched; it is never replaced by a silent reload.
use crate::envelope::{
    batch_bytes, lemma_batch_round_trip, decode_batch, encode_batch, envelope_model, envelope_models, parse_batch, Envelope, EnvelopeModel,
};
use crate::codec::lemma_le64;
use crate::gateway::{
    death_bytes, decode_death, decode_error, encode_death, encode_error, error_bytes, error_detail,
    error_tag, is_death, is_error, lemma_death_round_trip, lemma_error_round_trip, parse_death,
    parse_error, AsciiDeath, GatewayError,
};
use crate::resource::{settled_state, Resource, ResourceState, ResourceView};
use vstd::utf8::*;
use crate::suspense::Scope;
use vstd::prelude::*;

verus! {

/// Why seeding a resource failed.
#[derive(Clone, Copy, Debug, PartialEq, Eq)]
pub enum HydrationError {
    /// The embedded payload is not a run of envelopes.
    MalformedPayload,
    /// The envelope at `position` does not decode into an output or an error.
    Mismatch { position: usize },
    /// The server embedded no envelope for this resource.
    Exhausted,
    /// The resource is unknown, already loading or settled, or disposed.
    NotSeedable,
}

/// Whether an envelope's contents decode.
pub open spec fn decodes(m: EnvelopeModel) -> bool {
    if m.1 {
        parse_death(m.2) is Some
    } else {
        parse_error(m.2) is Some
    }
}

/// Whether `s` is the settled state that the envelope `m` describes.
pub open spec fn holds_envelope(s: ResourceState<AsciiDeath>, m: EnvelopeModel) -> bool {
    if m.1 {
        s matches ResourceState::Resolved { generation, value } && generation == m.0 && is_death(
            value,
            parse_death(m.2)->0,
        )
    } else {
        s matches ResourceState::Errored { generation, error } && generation == m.0 && is_error(
            error,
            parse_error(m.2)->0,
        )
    }
}

/// Whether `after` is `before` seeded from the envelope `m`.
pub open spec fn seeded_from(
    before: ResourceView<AsciiDeath>,
    after: ResourceView<AsciiDeath>,
    m: EnvelopeModel,
) -> bool {
    &&& after.key == before.key
    &&& after.disposed == before.disposed
    &&& after.generation == m.0
    &&& holds_envelope(after.state, m)
}

/// The envelope the server embeds for a load `g` that settled with `r`.
pub open spec fn outcome_envelope(g: u64, r: Result<AsciiDeath, GatewayError>) -> EnvelopeModel {
    match r {
        Ok(d) => (g, true, death_bytes(d.killer@, d.after)),
        Err(e) => (g, false, error_bytes(error_tag(e), error_detail(e))),
    }
}

/// The envelope for a settled resource, as the server embeds it; `None`
/// while the resource has not settled.
pub fn envelope_for(res: &Resource<AsciiDeath>) -> (e: Option<Envelope>)
    ensures
        match res@.state {
            ResourceState::Resolved { generation, value } => (e matches Some(e)
                && envelope_model(e) == outcome_envelope(generation, Ok(value))),
            ResourceState::Errored { generation, error } => (e matches Some(e)
                && envelope_model(e) == outcome_envelope(generation, Err(error))),
            _ => e is None,
        },
{
    match res.read() {
        ResourceState::Resolved { generation, value } => Some(
            Envelope { generation: *generation, ok: true, payload: encode_death(value) },
        ),
        ResourceState::Errored { generation, error } => Some(
            Envelope { generation: *generation, ok: false, payload: encode_error(error) },
        ),
        _ => None,
    }
}

/// Whether a state is settled, one way or the other.
pub open spec fn is_settled<T>(s: ResourceState<T>) -> bool {
    s is Resolved || s is Errored
}

/// The envelope describing a settled state.
pub open spec fn state_envelope(s: ResourceState<AsciiDeath>) -> EnvelopeModel {
    match s {
        ResourceState::Resolved { generation, value } => outcome_envelope(generation, Ok(value)),
        ResourceState::Errored { generation, error } => outcome_envelope(generation, Err(error)),
        _ => (0, false, seq![]),
    }
}

/// The envelopes of every resource of a scope, in creation order.
pub open spec fn scope_envelopes(s: Seq<ResourceView<AsciiDeath>>) -> Seq<EnvelopeModel> {
    s.map_values(|v: ResourceView<AsciiDeath>| state_envelope(v.state))
}

/// The hydration payload of a server render pass: the envelopes of all
/// resources of `scope` in creation order, or `None` while any of them has
/// not settled.
pub fn payload_for(scope: &Scope<AsciiDeath>) -> (r: Option<Vec<u8>>)
    ensures
        r is Some <==> forall|i: int| 0 <= i < scope@.len() ==> is_settled(#[trigger] scope@[i].state),
        r matches Some(b) ==> b@ == batch_bytes(scope_envelopes(scope@)),
{
    let n = scope.len();
    let mut es: Vec<Envelope> = Vec::new();
    let mut i: usize = 0;
    while i < n
        invariant
            n == scope@.len(),
            0 <= i <= n,
            forall|j: int| 0 <= j < i ==> is_settled(#[trigger] scope@[j].state),
            envelope_models(es@) == scope_envelopes(scope@).subrange(0, i as int),
        decreases n - i,
    {
        match envelope_for(scope.resource(i)) {
            Some(e) => {
                let ghost pre = envelope_models(es@);
                assert(envelope_model(e) == state_envelope(scope@[i as int].state));
                assert(is_settled(scope@[i as int].state));
                es.push(e);
                assert(envelope_models(es@) =~= pre.push(envelope_model(e)));
                assert(envelope_models(es@) =~= scope_envelopes(scope@).subrange(0, i + 1));
            },
            None => {
                return None;
            },
        }
        i = i + 1;
    }
    assert(scope_envelopes(scope@).subrange(0, n as int) =~= scope_envelopes(scope@));
    Some(encode_batch(&es))
}

/// The envelopes of one server render pass and the position of the next
/// one to hand out.
#[derive(Debug)]
pub struct Synchronizer {
    envelopes: Vec<Envelope>,
    next: usize,
}

impl View for Synchronizer {
    type V = (Seq<EnvelopeModel>, nat);

    closed spec fn view(&self) -> (Seq<EnvelopeModel>, nat) {
        (envelope_models(self.envelopes@), self.next as nat)
    }
}

impl Synchronizer {
    /// A synchronizer that hands out `envelopes` from the first on.
    pub fn new(envelopes: Vec<Envelope>) -> (r: Synchronizer)
        ensures
            r@ == (envelope_models(envelopes@), 0nat),
    {
        Synchronizer { envelopes, next: 0 }
    }

    /// A synchronizer over the envelopes of the embedded payload `b`.
    pub fn from_payload(b: &[u8]) -> (r: Result<Synchronizer, HydrationError>)
        ensures
            match parse_batch(b@) {
                Some(ms) => (r matches Ok(s) && s@ == (ms, 0nat)),
                None => r == Err::<Synchronizer, HydrationError>(HydrationError::MalformedPayload),
            },
    {
        match decode_batch(b) {
            Some(es) => Ok(Synchronizer::new(es)),
            None => Err(HydrationError::MalformedPayload),
        }
    }

    /// How many envelopes were handed out so far.
    pub fn position(&self) -> (r: usize)
        ensures
            r == self@.1,
    {
        self.next
    }

    /// Seeds resource `id` of `scope` from the next envelope, without
    /// running its loader.
    pub fn seed_next(&mut self, scope: &mut Scope<AsciiDeath>, id: usize) -> (r: Result<
        (),
        HydrationError,
    >)
        ensures
            final(self)@.0 == old(self)@.0,
            ({
                let ms = old(self)@.0;
                let k = old(self)@.1;
                let before = old(scope)@;
                if id >= before.len() || !before[id as int].seedable() {
                    &&& r == Err::<(), HydrationError>(HydrationError::NotSeedable)
                    &&& final(self)@.1 == k
                    &&& final(scope)@ == before
                } else if k >= ms.len() {
                    &&& r == Err::<(), HydrationError>(HydrationError::Exhausted)
                    &&& final(self)@.1 == k
                    &&& final(scope)@ == before
                } else if !decodes(ms[k as int]) {
                    &&& r == Err::<(), HydrationError>(HydrationError::Mismatch { position: k as usize })
                    &&& final(self)@.1 == k + 1
                    &&& final(scope)@ == before
                } else {
                    &&& r is Ok
                    &&& final(self)@.1 == k + 1
                    &&& final(scope)@.len() == before.len()
                    &&& forall|j: int|
                        0 <= j < before.len() && j != id ==> #[trigger] final(scope)@[j] == before[j]
                    &&& seeded_from(before[id as int], final(scope)@[id as int], ms[k as int])
                }
            }),
    {
        if id >= scope.len() || scope.resource(id).is_disposed() || !matches!(
            scope.resource(id).read(),
            ResourceState::Idle,
        ) {
            return Err(HydrationError::NotSeedable);
        }
        if self.next >= self.envelopes.len() {
            return Err(HydrationError::Exhausted);
        }
        let k = self.next;
        let e = &self.envelopes[k];
        let outcome = if e.ok {
            match decode_death(e.payload.as_slice()) {
                Some(d) => Ok(d),
                None => {
                    self.next = k + 1;
                    return Err(HydrationError::Mismatch { position: k });
                },
            }
        } else {
            match decode_error(e.payload.as_slice()) {
                Some(err) => Err(err),
                None => {
                    self.next = k + 1;
                    return Err(HydrationError::Mismatch { position: k });
                },
            }
        };
        let generation = e.generation;
        self.next = k + 1;
        let ghost before = scope@;
        scope.seed(id, generation, outcome);
        proof {
            assert forall|j: int| 0 <= j < before.len() && j != id implies #[trigger] scope@[j]
                == before[j] by {}
        }
        Ok(())
    }
}

} // verus!

verus! {

/// Whatever a server load settled with, output or error and whatever
/// characters its text holds, the envelope made of it decodes on the client
/// into the very same settled state.
pub proof fn lemma_envelope_round_trip(g: u64, r: Result<AsciiDeath, GatewayError>)
    requires
        r matches Ok(d) ==> encode_utf8(d.killer@).len() <= u64::MAX,
    ensures
        decodes(outcome_envelope(g, r)),
        holds_envelope(settled_state(g, r), outcome_envelope(g, r)),
{
    match r {
        Ok(d) => lemma_death_round_trip(d.killer@, d.after),
        Err(e) => lemma_error_round_trip(e),
    }
}

} // verus!

verus! {

/// A server pass whose resources have all settled embeds a payload from
/// which the client reads back, for every resource in creation order, an
/// envelope that decodes and seeds exactly the state the server observed.
pub proof fn lemma_hydration_round_trip(states: Seq<ResourceView<AsciiDeath>>)
    requires
        forall|i: int| 0 <= i < states.len() ==> is_settled(#[trigger] states[i].state),
        forall|i: int|
            0 <= i < states.len() ==> (#[trigger] state_envelope(states[i].state)).2.len()
                <= u64::MAX,
    ensures
        parse_batch(batch_bytes(scope_envelopes(states))) == Some(scope_envelopes(states)),
        forall|i: int|
            0 <= i < states.len() ==> decodes(#[trigger] scope_envelopes(states)[i])
                && holds_envelope(states[i].state, scope_envelopes(states)[i]),
{
    let ms = scope_envelopes(states);
    assert forall|i: int| 0 <= i < ms.len() implies (#[trigger] ms[i]).2.len() <= u64::MAX by {
        assert(ms[i] == state_envelope(states[i].state));
    }
    lemma_batch_round_trip(ms);
    assert forall|i: int| 0 <= i < states.len() implies decodes(#[trigger] scope_envelopes(states)[i])
        && holds_envelope(states[i].state, scope_envelopes(states)[i]) by {
        let st = states[i].state;
        assert(ms[i] == state_envelope(st));
        assert(state_envelope(st).2.len() <= u64::MAX);
        match st {
            ResourceState::Resolved { generation, value } => {
                let t = encode_utf8(value.killer@);
                lemma_le64(t.len() as u64);
                assert(death_bytes(value.killer@, value.after).len() == 9 + t.len());
                lemma_envelope_round_trip(generation, Ok(value));
            },
            ResourceState::Errored { generation, error } => {
                lemma_envelope_round_trip(generation, Err(error));
            },
            _ => {},
        }
    }
}

} // verus!

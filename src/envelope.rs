//! The hydration payload: the settled outcome of each resource of a server
//! render pass, in creation order, as a run of framed envelopes.
use crate::codec::{get_u64, le64, le64_value, lemma_le64, put_u64};
use vstd::prelude::*;
use vstd::slice::*;

verus! {

/// The settled outcome of one load: its generation, whether it succeeded,
/// and the wire form of the output (on success) or of the error.
#[derive(Debug)]
pub struct Envelope {
    pub generation: u64,
    pub ok: bool,
    pub payload: Vec<u8>,
}

/// The contents of an envelope.
pub type EnvelopeModel = (u64, bool, Seq<u8>);

pub open spec fn envelope_model(e: Envelope) -> EnvelopeModel {
    (e.generation, e.ok, e.payload@)
}

pub open spec fn envelope_models(es: Seq<Envelope>) -> Seq<EnvelopeModel> {
    es.map_values(|e: Envelope| envelope_model(e))
}

/// Wire form of one envelope: the generation, one byte for `ok`, then the
/// payload prefixed by its length, all lengths as eight little-endian bytes.
pub open spec fn envelope_bytes(m: EnvelopeModel) -> Seq<u8> {
    le64(m.0) + seq![if m.1 { 1u8 } else { 0u8 }] + le64(m.2.len() as u64) + m.2
}

/// Wire form of a run of envelopes.
pub open spec fn batch_bytes(ms: Seq<EnvelopeModel>) -> Seq<u8>
    decreases ms.len(),
{
    if ms.len() == 0 {
        seq![]
    } else {
        envelope_bytes(ms[0]) + batch_bytes(ms.drop_first())
    }
}

/// The run of envelopes that the bytes `b` hold, if they hold one.
pub open spec fn parse_batch(b: Seq<u8>) -> Option<Seq<EnvelopeModel>>
    decreases b.len(),
{
    if b.len() == 0 {
        Some(seq![])
    } else if b.len() < 17 || b[8] > 1 || le64_value(b.subrange(9, 17)) > b.len() - 17 {
        None
    } else {
        let n = le64_value(b.subrange(9, 17)) as int;
        let m = (le64_value(b.subrange(0, 8)), b[8] == 1, b.subrange(17, 17 + n));
        match parse_batch(b.subrange(17 + n, b.len() as int)) {
            Some(rest) => Some(seq![m] + rest),
            None => None,
        }
    }
}

pub open spec fn prepend(pre: Seq<EnvelopeModel>, r: Option<Seq<EnvelopeModel>>) -> Option<
    Seq<EnvelopeModel>,
> {
    match r {
        Some(s) => Some(pre + s),
        None => None,
    }
}

proof fn lemma_batch_concat(a: Seq<EnvelopeModel>, b: Seq<EnvelopeModel>)
    ensures
        batch_bytes(a + b) == batch_bytes(a) + batch_bytes(b),
    decreases a.len(),
{
    if a.len() == 0 {
        assert(a + b =~= b);
        assert(batch_bytes(a) + batch_bytes(b) =~= batch_bytes(b));
    } else {
        lemma_batch_concat(a.drop_first(), b);
        assert((a + b).drop_first() =~= a.drop_first() + b);
        assert(batch_bytes(a + b) =~= batch_bytes(a) + batch_bytes(b));
    }
}

/// The wire form of the envelopes `es`, in order.
pub fn encode_batch(es: &Vec<Envelope>) -> (r: Vec<u8>)
    ensures
        r@ == batch_bytes(envelope_models(es@)),
{
    let mut out: Vec<u8> = Vec::new();
    let n = es.len();
    let mut i: usize = 0;
    while i < n
        invariant
            n == es@.len(),
            0 <= i <= n,
            out@ == batch_bytes(envelope_models(es@).subrange(0, i as int)),
        decreases n - i,
    {
        let e = &es[i];
        let ghost before = out@;
        put_u64(&mut out, e.generation);
        out.push(if e.ok {
            1u8
        } else {
            0u8
        });
        put_u64(&mut out, e.payload.len() as u64);
        let mut p = slice_to_vec(e.payload.as_slice());
        out.append(&mut p);
        proof {
            let ms = envelope_models(es@);
            let one = seq![ms[i as int]];
            assert(ms.subrange(0, i + 1) =~= ms.subrange(0, i as int) + one);
            lemma_batch_concat(ms.subrange(0, i as int), one);
            assert(one.drop_first() =~= Seq::<EnvelopeModel>::empty());
            assert(batch_bytes(one.drop_first()) =~= Seq::<u8>::empty());
            assert(one[0] == ms[i as int]);
            assert(batch_bytes(one) =~= envelope_bytes(ms[i as int]));
            assert(out@ =~= before + envelope_bytes(ms[i as int]));
        }
        i = i + 1;
    }
    assert(envelope_models(es@).subrange(0, n as int) =~= envelope_models(es@));
    out
}

/// Reads a run of envelopes; `None` when `b` is not the wire form of one.
pub fn decode_batch(b: &[u8]) -> (r: Option<Vec<Envelope>>)
    ensures
        match parse_batch(b@) {
            Some(ms) => r matches Some(es) && envelope_models(es@) == ms,
            None => r is None,
        },
{
    let len: usize = b.len();
    let mut out: Vec<Envelope> = Vec::new();
    let mut pos: usize = 0;
    assert(b@.subrange(0, len as int) =~= b@);
    assert(envelope_models(out@) + Seq::<EnvelopeModel>::empty() =~= Seq::<EnvelopeModel>::empty());
    while pos < len
        invariant
            len == b@.len(),
            0 <= pos <= len,
            parse_batch(b@) == prepend(envelope_models(out@), parse_batch(b@.subrange(pos as int, len as int))),
        decreases len - pos,
    {
        let ghost rest = b@.subrange(pos as int, len as int);
        if len - pos < 17 || b[pos + 8] > 1 {
            return None;
        }
        assert(rest.subrange(9, 17) =~= b@.subrange(pos + 9, pos + 17));
        assert(rest.subrange(0, 8) =~= b@.subrange(pos as int, pos + 8));
        let n = get_u64(b, pos + 9);
        if n > (len - pos - 17) as u64 {
            return None;
        }
        let generation = get_u64(b, pos);
        let start: usize = pos + 17;
        let end: usize = start + n as usize;
        let payload = slice_to_vec(slice_subrange(b, start, end));
        let e = Envelope { generation, ok: b[pos + 8] == 1, payload };
        let ghost m = envelope_model(e);
        let ghost pre = envelope_models(out@);
        out.push(e);
        proof {
            assert(rest.subrange(17, 17 + n) =~= payload@);
            assert(rest.subrange(17 + n, rest.len() as int) =~= b@.subrange(end as int, len as int));
            assert(envelope_models(out@) =~= pre.push(m));
            match parse_batch(b@.subrange(end as int, len as int)) {
                Some(tail) => {
                    assert(pre + (seq![m] + tail) =~= pre.push(m) + tail);
                },
                None => {},
            }
        }
        pos = end;
    }
    assert(b@.subrange(len as int, len as int) =~= Seq::<u8>::empty());
    assert(envelope_models(out@) + Seq::<EnvelopeModel>::empty() =~= envelope_models(out@));
    Some(out)
}

/// Reading back the wire form of any run of envelopes gives that run.
pub proof fn lemma_batch_round_trip(ms: Seq<EnvelopeModel>)
    requires
        forall|i: int| 0 <= i < ms.len() ==> (#[trigger] ms[i]).2.len() <= u64::MAX,
    ensures
        parse_batch(batch_bytes(ms)) == Some(ms),
    decreases ms.len(),
{
    if ms.len() == 0 {
        assert(batch_bytes(ms) =~= Seq::<u8>::empty());
        assert(Seq::<EnvelopeModel>::empty() =~= ms);
    } else {
        let m = ms[0];
        let tail = ms.drop_first();
        assert forall|i: int| 0 <= i < tail.len() implies (#[trigger] tail[i]).2.len() <= u64::MAX by {
            assert(tail[i] == ms[i + 1]);
        }
        lemma_batch_round_trip(tail);
        let b = batch_bytes(ms);
        let n = m.2.len() as int;
        lemma_le64(m.0);
        lemma_le64(n as u64);
        assert(b.subrange(0, 8) =~= le64(m.0));
        assert(b.subrange(9, 17) =~= le64(n as u64));
        assert(b.subrange(17, 17 + n) =~= m.2);
        assert(b.subrange(17 + n, b.len() as int) =~= batch_bytes(tail));
        assert(seq![m] + tail =~= ms);
    }
}

} // verus!

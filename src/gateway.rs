//! The server function gateway: the `kill` procedure, the wire form of its
//! output and of gateway errors, and the client-side reading of a response.
use crate::codec::{decode_text, encode_text, get_u64, le64, le64_value, lemma_le64, put_u64};
use vstd::prelude::*;
use vstd::slice::*;
use vstd::string::*;
use vstd::utf8::*;

verus! {

/// The value the `kill` procedure returns.
#[derive(Clone, Debug, PartialEq, Eq)]
pub struct AsciiDeath {
    pub killer: String,
    pub after: bool,
}

/// Why a gateway call failed; each carries a human-readable detail.
#[derive(Clone, Debug, PartialEq, Eq)]
pub enum GatewayError {
    /// The arguments could not be encoded.
    Serialize(String),
    /// The network exchange itself failed.
    Transport(String),
    /// The response bytes do not parse as an output or as an error.
    Deserialize(String),
    /// The procedure ran and reported a failure.
    Execution(String),
}

/// Wire tag of each error kind.
pub open spec fn error_tag(e: GatewayError) -> u8 {
    match e {
        GatewayError::Serialize(_) => 0,
        GatewayError::Transport(_) => 1,
        GatewayError::Deserialize(_) => 2,
        GatewayError::Execution(_) => 3,
    }
}

pub open spec fn error_detail(e: GatewayError) -> Seq<char> {
    match e {
        GatewayError::Serialize(d) => d@,
        GatewayError::Transport(d) => d@,
        GatewayError::Deserialize(d) => d@,
        GatewayError::Execution(d) => d@,
    }
}

/// Bytes prefixed by their length as eight little-endian bytes.
pub open spec fn framed(p: Seq<u8>) -> Seq<u8> {
    le64(p.len() as u64) + p
}

pub open spec fn flag_byte(b: bool) -> u8 {
    if b {
        1
    } else {
        0
    }
}

/// Wire form of an `AsciiDeath`: the framed UTF-8 of `killer`, then one
/// byte for `after`.
pub open spec fn death_bytes(killer: Seq<char>, after: bool) -> Seq<u8> {
    framed(encode_utf8(killer)) + seq![flag_byte(after)]
}

/// What the bytes `b` hold when read as an `AsciiDeath`.
pub open spec fn parse_death(b: Seq<u8>) -> Option<(Seq<char>, bool)> {
    if b.len() < 9 {
        None
    } else {
        let n = le64_value(b.subrange(0, 8));
        let text = b.subrange(8, b.len() - 1);
        let flag = b[b.len() - 1];
        if n != b.len() - 9 || !valid_utf8(text) || flag > 1 {
            None
        } else {
            Some((decode_utf8(text), flag == 1))
        }
    }
}

/// Wire form of a gateway error: its tag, then the UTF-8 of its detail.
pub open spec fn error_bytes(tag: u8, detail: Seq<char>) -> Seq<u8> {
    seq![tag] + encode_utf8(detail)
}

/// What the bytes `b` hold when read as a gateway error.
pub open spec fn parse_error(b: Seq<u8>) -> Option<(u8, Seq<char>)> {
    if b.len() < 1 || b[0] > 3 || !valid_utf8(b.drop_first()) {
        None
    } else {
        Some((b[0], decode_utf8(b.drop_first())))
    }
}

/// Wire form of a whole response: `0` and an output, or `1` and an error.
pub open spec fn response_bytes(r: Result<AsciiDeath, GatewayError>) -> Seq<u8> {
    match r {
        Ok(d) => seq![0u8] + death_bytes(d.killer@, d.after),
        Err(e) => seq![1u8] + error_bytes(error_tag(e), error_detail(e)),
    }
}

/// The output that the response bytes `b` carry, if they carry one.
pub open spec fn response_output(b: Seq<u8>) -> Option<(Seq<char>, bool)> {
    if b.len() >= 1 && b[0] == 0 {
        parse_death(b.drop_first())
    } else {
        None
    }
}

/// The error that the response bytes `b` carry, if they carry one.
pub open spec fn response_error(b: Seq<u8>) -> Option<(u8, Seq<char>)> {
    if b.len() >= 1 && b[0] == 1 {
        parse_error(b.drop_first())
    } else {
        None
    }
}

pub open spec fn is_death(r: AsciiDeath, m: (Seq<char>, bool)) -> bool {
    r.killer@ == m.0 && r.after == m.1
}

pub open spec fn is_error(r: GatewayError, m: (u8, Seq<char>)) -> bool {
    error_tag(r) == m.0 && error_detail(r) == m.1
}

/// The body of the `kill` procedure, run where it is implemented.
pub fn kill() -> (r: Result<AsciiDeath, GatewayError>)
    ensures
        r matches Ok(d) && d.killer@ == seq!['€', 'a'] && d.after,
{
    let killer = String::from_str("€a");
    proof {
        reveal_strlit("€a");
    }
    assert(killer@ =~= seq!['€', 'a']);
    Ok(AsciiDeath { killer, after: true })
}

/// The wire form of `d`.
pub fn encode_death(d: &AsciiDeath) -> (r: Vec<u8>)
    ensures
        r@ == death_bytes(d.killer@, d.after),
{
    let mut text = encode_text(d.killer.as_str());
    let mut out: Vec<u8> = Vec::new();
    put_u64(&mut out, text.len() as u64);
    out.append(&mut text);
    out.push(if d.after {
        1u8
    } else {
        0u8
    });
    out
}

/// Reads an `AsciiDeath` from its wire form; `None` when `b` is not one.
pub fn decode_death(b: &[u8]) -> (r: Option<AsciiDeath>)
    ensures
        match parse_death(b@) {
            Some(m) => r matches Some(d) && is_death(d, m),
            None => r is None,
        },
{
    let len: usize = b.len();
    if len < 9 {
        return None;
    }
    let n = get_u64(b, 0);
    let flag = b[len - 1];
    if n != (len - 9) as u64 || flag > 1 {
        return None;
    }
    let text = slice_subrange(b, 8, len - 1);
    match decode_text(text) {
        Some(killer) => Some(AsciiDeath { killer, after: flag == 1 }),
        None => None,
    }
}

impl GatewayError {
    /// The detail text carried by the error.
    pub fn detail(&self) -> (r: &String)
        ensures
            r@ == error_detail(*self),
    {
        match self {
            GatewayError::Serialize(d) => d,
            GatewayError::Transport(d) => d,
            GatewayError::Deserialize(d) => d,
            GatewayError::Execution(d) => d,
        }
    }

    fn tag(&self) -> (r: u8)
        ensures
            r == error_tag(*self),
    {
        match self {
            GatewayError::Serialize(_) => 0,
            GatewayError::Transport(_) => 1,
            GatewayError::Deserialize(_) => 2,
            GatewayError::Execution(_) => 3,
        }
    }

    /// The error of kind `tag` with the given detail.
    fn with_tag(tag: u8, detail: String) -> (r: GatewayError)
        requires
            tag <= 3,
        ensures
            error_tag(r) == tag,
            error_detail(r) == detail@,
    {
        if tag == 0 {
            GatewayError::Serialize(detail)
        } else if tag == 1 {
            GatewayError::Transport(detail)
        } else if tag == 2 {
            GatewayError::Deserialize(detail)
        } else {
            GatewayError::Execution(detail)
        }
    }
}

/// The wire form of `e`.
pub fn encode_error(e: &GatewayError) -> (r: Vec<u8>)
    ensures
        r@ == error_bytes(error_tag(*e), error_detail(*e)),
{
    let mut out: Vec<u8> = Vec::new();
    out.push(e.tag());
    let mut text = encode_text(e.detail().as_str());
    out.append(&mut text);
    assert(out@ =~= error_bytes(error_tag(*e), error_detail(*e)));
    out
}

/// Reads a gateway error from its wire form; `None` when `b` is not one.
pub fn decode_error(b: &[u8]) -> (r: Option<GatewayError>)
    ensures
        match parse_error(b@) {
            Some(m) => r matches Some(e) && is_error(e, m),
            None => r is None,
        },
{
    let len: usize = b.len();
    if len < 1 || b[0] > 3 {
        return None;
    }
    let rest = slice_subrange(b, 1, len);
    assert(rest@ =~= b@.drop_first());
    match decode_text(rest) {
        Some(detail) => Some(GatewayError::with_tag(b[0], detail)),
        None => None,
    }
}

/// The wire form of a whole response, as the implementing side sends it.
pub fn encode_response(r: &Result<AsciiDeath, GatewayError>) -> (out: Vec<u8>)
    ensures
        out@ == response_bytes(*r),
{
    let mut out: Vec<u8> = Vec::new();
    match r {
        Ok(d) => {
            out.push(0u8);
            let mut body = encode_death(d);
            out.append(&mut body);
        },
        Err(e) => {
            out.push(1u8);
            let mut body = encode_error(e);
            out.append(&mut body);
        },
    }
    out
}

/// The outcome the calling side reads from the response bytes `b`: the
/// output, the error the procedure reported, or a `Deserialize` error when
/// `b` is neither (told apart from a transport failure).
pub fn decode_response(b: &[u8]) -> (r: Result<AsciiDeath, GatewayError>)
    ensures
        match response_output(b@) {
            Some(m) => (r matches Ok(d) && is_death(d, m)),
            None => match response_error(b@) {
                Some(m) => (r matches Err(e) && is_error(e, m)),
                None => (r matches Err(GatewayError::Deserialize(_))),
            },
        },
{
    let len: usize = b.len();
    if len >= 1 {
        let body = slice_subrange(b, 1, len);
        assert(body@ =~= b@.drop_first());
        if b[0] == 0 {
            if let Some(d) = decode_death(body) {
                return Ok(d);
            }
        } else if b[0] == 1 {
            if let Some(e) = decode_error(body) {
                return Err(e);
            }
        }
    }
    Err(GatewayError::Deserialize(String::from_str("response is neither an output nor an error")))
}

/// Decoding the wire form of any `AsciiDeath` gives it back.
pub proof fn lemma_death_round_trip(killer: Seq<char>, after: bool)
    requires
        encode_utf8(killer).len() <= u64::MAX,
    ensures
        parse_death(death_bytes(killer, after)) == Some((killer, after)),
{
    let t = encode_utf8(killer);
    let b = death_bytes(killer, after);
    lemma_le64(t.len() as u64);
    encode_utf8_valid_utf8(killer);
    encode_utf8_decode_utf8(killer);
    assert(b.subrange(0, 8) =~= le64(t.len() as u64));
    assert(b.subrange(8, b.len() - 1) =~= t);
}

} // verus!

verus! {

/// Decoding the wire form of any gateway error gives it back.
pub proof fn lemma_error_round_trip(e: GatewayError)
    ensures
        parse_error(error_bytes(error_tag(e), error_detail(e))) == Some(
            (error_tag(e), error_detail(e)),
        ),
{
    let b = error_bytes(error_tag(e), error_detail(e));
    encode_utf8_valid_utf8(error_detail(e));
    encode_utf8_decode_utf8(error_detail(e));
    assert(b.drop_first() =~= encode_utf8(error_detail(e)));
}

/// A response read back on the calling side is the one the implementing
/// side sent, whatever characters its text holds.
pub proof fn lemma_response_round_trip(r: Result<AsciiDeath, GatewayError>)
    requires
        r matches Ok(d) ==> encode_utf8(d.killer@).len() <= u64::MAX,
    ensures
        ({
            let b = response_bytes(r);
            match r {
                Ok(d) => response_output(b) == Some((d.killer@, d.after)),
                Err(e) => response_output(b) is None && response_error(b) == Some(
                    (error_tag(e), error_detail(e)),
                ),
            }
        }),
{
    let b = response_bytes(r);
    match r {
        Ok(d) => {
            lemma_death_round_trip(d.killer@, d.after);
            assert(b.drop_first() =~= death_bytes(d.killer@, d.after));
        },
        Err(e) => {
            lemma_error_round_trip(e);
            assert(b.drop_first() =~= error_bytes(error_tag(e), error_detail(e)));
        },
    }
}

} // verus!

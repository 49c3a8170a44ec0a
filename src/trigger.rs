use vstd::prelude::*;

use crate::abi::{
    bytes_tail, decode_dynamic, decode_limit, decode_trigger, dynamic_encoding, envelope_encoding,
    lemma_dynamic_encoding_injective, pad_len, TriggerInfo,
};
use crate::error::CodecError;

verus! {

/// The kind of trigger that started an invocation.
#[derive(Debug, Clone, Copy, PartialEq, Eq, Structural)]
pub enum TriggerKind {
    /// A contract event, as delivered by the generic chain watcher.
    ContractEvent,
    /// A contract event, as delivered by the EVM-specific chain watcher.
    EvmContractEvent,
    /// Any other trigger (a block interval, a manual call, ...).
    Other,
}

/// A raw contract log: its topics and its unindexed data.
#[derive(Debug, Clone, PartialEq, Eq)]
pub struct EventLog {
    pub topics: Vec<[u8; 32]>,
    pub data: Vec<u8>,
}

/// One incoming trigger.
#[derive(Debug, Clone, PartialEq, Eq)]
pub struct TriggerData {
    pub kind: TriggerKind,
    pub log: EventLog,
}

/// Names what `keccak256` returns on the UTF-8 bytes of a string.
pub uninterp spec fn keccak_of(s: Seq<char>) -> Seq<u8>;

/// Relies on alloy_primitives' `keccak256`, applied to the bytes of `s`.
#[verifier::external_body]
fn keccak256_str(s: &str) -> (r: [u8; 32])
    ensures
        r@ == keccak_of(s@),
{
    alloy_primitives::keccak256(s.as_bytes()).0
}

/// The Solidity signature of the trigger event, `event NewTrigger(bytes)`.
pub open spec fn new_trigger_signature() -> Seq<char> {
    seq!['N', 'e', 'w', 'T', 'r', 'i', 'g', 'g', 'e', 'r', '(', 'b', 'y', 't', 'e', 's', ')']
}

/// The topic that identifies a `NewTrigger` log.
pub fn new_trigger_topic() -> (r: [u8; 32])
    ensures
        r@ == keccak_of(new_trigger_signature()),
{
    let sig = "NewTrigger(bytes)";
    proof {
        reveal_strlit("NewTrigger(bytes)");
        assert(sig@ =~= new_trigger_signature());
    }
    keccak256_str(sig)
}

/// The log is a `NewTrigger` event whose single unindexed field holds `payload`.
pub open spec fn is_new_trigger_log(log: EventLog, payload: Seq<u8>) -> bool {
    &&& log.topics@.len() == 1
    &&& log.topics@[0]@ == keccak_of(new_trigger_signature())
    &&& log.data@ == dynamic_encoding(payload)
}

/// The trigger is a recognized contract event that carries the envelope `{ id, d }`.
pub open spec fn carries_envelope(t: TriggerData, id: u64, d: Seq<u8>) -> bool {
    &&& !(t.kind is Other)
    &&& is_new_trigger_log(t.log, envelope_encoding(id, d))
}

/// Whether two 32-byte words are equal.
fn word_equal(a: &[u8; 32], b: &[u8; 32]) -> (r: bool)
    ensures
        r == (a@ == b@),
{
    let mut i: usize = 0;
    while i < 32
        invariant
            i <= 32,
            a@.len() == 32,
            b@.len() == 32,
            forall|j: int| 0 <= j < i ==> a@[j] == b@[j],
        decreases 32 - i,
    {
        if a[i] != b[i] {
            return false;
        }
        i += 1;
    }
    assert(a@ =~= b@);
    true
}

/// Extracts the payload of a `NewTrigger` log: the bytes of its single field.
pub fn unwrap_event_log(log: &EventLog) -> (r: Result<Vec<u8>, CodecError>)
    ensures
        match r {
            Ok(p) => is_new_trigger_log(*log, p@),
            Err(e) => e is MalformedTriggerEnvelope && forall|p: Seq<u8>|
                p.len() <= decode_limit() ==> !#[trigger] is_new_trigger_log(*log, p),
        },
{
    let topic = new_trigger_topic();
    if log.topics.len() != 1 || !word_equal(&log.topics[0], &topic) {
        return Err(CodecError::MalformedTriggerEnvelope);
    }
    match decode_dynamic(log.data.as_slice()) {
        Some(p) => Ok(p),
        None => Err(CodecError::MalformedTriggerEnvelope),
    }
}

/// Decodes the trigger envelope that a contract event carries.
///
/// Only the two contract-event kinds are accepted; any other trigger is
/// refused before anything is decoded.
pub fn decode_trigger_event(t: &TriggerData) -> (r: Result<TriggerInfo, CodecError>)
    ensures
        match r {
            Ok(info) => carries_envelope(*t, info.trigger_id, info.data@),
            Err(e) => if t.kind is Other {
                e is UnsupportedTriggerKind
            } else {
                e is MalformedTriggerEnvelope && forall|id: u64, d: Seq<u8>|
                    d.len() + 160 <= decode_limit() ==> !#[trigger] carries_envelope(*t, id, d)
            },
        },
{
    match t.kind {
        TriggerKind::Other => Err(CodecError::UnsupportedTriggerKind),
        _ => {
            let payload = match unwrap_event_log(&t.log) {
                Ok(p) => p,
                Err(e) => {
                    proof {
                        assert forall|id: u64, d: Seq<u8>|
                            d.len() + 160 <= decode_limit() implies
                        !#[trigger] carries_envelope(*t, id, d) by {
                            let e = envelope_encoding(id, d);
                            assert(e.len() == 128 + d.len() + pad_len(d.len()));
                        }
                    }
                    return Err(e);
                },
            };
            let payload_len: usize = payload.len();
            let data_len: usize = t.log.data.len();
            let r = decode_trigger(payload.as_slice());
            proof {
                if r is Err {
                    assert forall|id: u64, d: Seq<u8>|
                        d.len() + 160 <= decode_limit() implies
                        !#[trigger] carries_envelope(*t, id, d) by {
                        if carries_envelope(*t, id, d) {
                            assert(is_new_trigger_log(t.log, payload@));
                            let e = envelope_encoding(id, d);
                            assert(e.len() == 96 + bytes_tail(d).len());
                            assert(dynamic_encoding(e).len() == t.log.data@.len());
                            assert(t.log.data@.len() == data_len);
                            assert(dynamic_encoding(e).len() >= e.len());
                            assert(payload@.len() == payload_len);
                            lemma_dynamic_encoding_injective(payload@, e);
                            assert(payload@ == envelope_encoding(id, d));
                        }
                    }
                }
            }
            r
        },
    }
}

} // verus!

use alloy_sol_types::sol_data;
use alloy_sol_types::SolType;
use vstd::prelude::*;

use crate::abi::{decode_limit, encode_output, envelope_encoding, uint_word};
use crate::trigger::{carries_envelope, decode_trigger_event, TriggerData};
use crate::error::CodecError;

verus! {

/// A 20-byte account address, compared byte for byte.
pub type Address = [u8; 20];

/// The ABI word of an address: twelve zero bytes, then the address.
pub open spec fn address_word(a: Seq<u8>) -> Seq<u8> {
    Seq::new(12, |i: int| 0u8) + a
}

/// The ABI word of a boolean: the integer 0 or 1.
pub open spec fn bool_word(b: bool) -> Seq<u8> {
    uint_word(if b { 1 } else { 0 })
}

/// The oracle's request payload: the market maker and the conditional-tokens
/// contract, read from the event.
#[derive(Debug, Clone, PartialEq, Eq)]
pub struct OracleInput {
    pub lmsr_market_maker: Address,
    pub conditional_tokens: Address,
}

/// The oracle's answer: the two contracts and the market's resolution.
#[derive(Debug, Clone, PartialEq, Eq)]
pub struct OracleOutput {
    pub lmsr_market_maker: Address,
    pub conditional_tokens: Address,
    pub result: bool,
}

/// ABI encoding of the record `{ address lmsrMarketMaker, address conditionalTokens }`.
pub open spec fn input_encoding(mm: Seq<u8>, ct: Seq<u8>) -> Seq<u8> {
    address_word(mm) + address_word(ct)
}

/// ABI encoding of `{ address lmsrMarketMaker, address conditionalTokens, bool result }`.
pub open spec fn output_encoding(mm: Seq<u8>, ct: Seq<u8>, result: bool) -> Seq<u8> {
    address_word(mm) + address_word(ct) + bool_word(result)
}

/// Relies on alloy_sol_types' `SolType::abi_encode` for `(address, address, bool)`:
/// a static record is its three words in order.
#[verifier::external_body]
fn abi_encode_output_record(mm: &Address, ct: &Address, result: bool) -> (r: Vec<u8>)
    ensures
        r@ == output_encoding(mm@, ct@, result),
{
    let value = (alloy_primitives::Address::from(*mm), alloy_primitives::Address::from(*ct), result);
    <(sol_data::Address, sol_data::Address, sol_data::Bool) as SolType>::abi_encode(&value)
}

/// Encodes the oracle's answer record.
pub fn encode_oracle_output(out: &OracleOutput) -> (r: Vec<u8>)
    ensures
        r@ == output_encoding(out.lmsr_market_maker@, out.conditional_tokens@, out.result),
{
    abi_encode_output_record(&out.lmsr_market_maker, &out.conditional_tokens, out.result)
}

/// Encodes the response envelope whose data is the answer record.
pub fn encode_trigger_output(
    trigger_id: u64,
    lmsr_market_maker: Address,
    conditional_tokens: Address,
    result: bool,
) -> (r: Vec<u8>)
    ensures
        r@ == envelope_encoding(
            trigger_id,
            output_encoding(lmsr_market_maker@, conditional_tokens@, result),
        ),
{
    let out = OracleOutput { lmsr_market_maker, conditional_tokens, result };
    let data = encode_oracle_output(&out);
    encode_output(trigger_id, data.as_slice())
}

/// Whether `b[start..start + n]` are all zero.
fn zeros_at(b: &[u8], start: usize, n: usize) -> (r: bool)
    requires
        start + n <= b@.len(),
    ensures
        r == (forall|j: int| start <= j < start + n ==> b@[j] == 0),
{
    let len: usize = b.len();
    let mut i: usize = 0;
    while i < n
        invariant
            len == b@.len(),
            i <= n,
            start + n <= b@.len(),
            forall|j: int| start <= j < start + i ==> b@[j] == 0,
        decreases n - i,
    {
        if b[start + i] != 0 {
            return false;
        }
        i += 1;
    }
    true
}

/// The address held in the last twenty bytes of the word at `start`.
fn address_at(b: &[u8], start: usize) -> (r: Address)
    requires
        start + 32 <= b@.len(),
    ensures
        r@ == b@.subrange(start + 12, start + 32),
{
    let len: usize = b.len();
    assert(len == b@.len());
    let s = start + 12;
    let r = [
        b[s], b[s + 1], b[s + 2], b[s + 3], b[s + 4], b[s + 5], b[s + 6], b[s + 7], b[s + 8],
        b[s + 9], b[s + 10], b[s + 11], b[s + 12], b[s + 13], b[s + 14], b[s + 15], b[s + 16],
        b[s + 17], b[s + 18], b[s + 19],
    ];
    assert(r@ =~= b@.subrange(start + 12, start + 32));
    r
}

/// Strictly decodes the oracle's request payload, for deployments whose
/// events carry the two addresses. A deployment that takes them from its
/// configuration does not read them from the event at all: the two layouts
/// are never guessed from the bytes.
pub fn decode_oracle_input(data: &[u8]) -> (r: Result<OracleInput, CodecError>)
    ensures
        match r {
            Ok(v) => data@ == input_encoding(v.lmsr_market_maker@, v.conditional_tokens@),
            Err(e) => e is MalformedPayload && forall|mm: Address, ct: Address|
                data@ != #[trigger] input_encoding(mm@, ct@),
        },
{
    if data.len() != 64 || !zeros_at(data, 0, 12) || !zeros_at(data, 32, 12) {
        proof {
            assert forall|mm: Address, ct: Address| data@ != #[trigger] input_encoding(mm@, ct@) by {
                if data@ == input_encoding(mm@, ct@) {
                    assert(forall|j: int| 0 <= j < 12 ==> data@[j] == address_word(mm@)[j]);
                    assert(forall|j: int| 32 <= j < 44 ==> data@[j] == address_word(ct@)[j - 32]);
                }
            }
        }
        return Err(CodecError::MalformedPayload);
    }
    let mm = address_at(data, 0);
    let ct = address_at(data, 32);
    assert(data@ =~= input_encoding(mm@, ct@));
    Ok(OracleInput { lmsr_market_maker: mm, conditional_tokens: ct })
}

/// Strictly decodes the oracle's answer record.
pub fn decode_oracle_output(data: &[u8]) -> (r: Result<OracleOutput, CodecError>)
    ensures
        match r {
            Ok(v) => data@ == output_encoding(
                v.lmsr_market_maker@,
                v.conditional_tokens@,
                v.result,
            ),
            Err(e) => e is MalformedPayload && forall|mm: Address, ct: Address, b: bool|
                data@ != #[trigger] output_encoding(mm@, ct@, b),
        },
{
    if data.len() != 96 || !zeros_at(data, 0, 12) || !zeros_at(data, 32, 12) || !zeros_at(
        data,
        64,
        31,
    ) || data[95] > 1 {
        proof {
            assert forall|mm: Address, ct: Address, b: bool|
                data@ != #[trigger] output_encoding(mm@, ct@, b) by {
                if data@ == output_encoding(mm@, ct@, b) {
                    assert(forall|j: int| 0 <= j < 12 ==> data@[j] == address_word(mm@)[j]);
                    assert(forall|j: int| 32 <= j < 44 ==> data@[j] == address_word(ct@)[j - 32]);
                    assert(forall|j: int| 64 <= j < 96 ==> data@[j] == bool_word(b)[j - 64]);
                    let v: u64 = if b { 1 } else { 0 };
                    assert(v >> 56u64 == 0 && v >> 48u64 == 0 && v >> 40u64 == 0 && v >> 32u64 == 0
                        && v >> 24u64 == 0 && v >> 16u64 == 0 && v >> 8u64 == 0) by (bit_vector)
                        requires v == 0 || v == 1;
                }
            }
        }
        return Err(CodecError::MalformedPayload);
    }
    let mm = address_at(data, 0);
    let ct = address_at(data, 32);
    let result = data[95] == 1;
    proof {
        let v: u64 = if result { 1 } else { 0 };
        assert(v >> 56u64 == 0 && v >> 48u64 == 0 && v >> 40u64 == 0 && v >> 32u64 == 0
            && v >> 24u64 == 0 && v >> 16u64 == 0 && v >> 8u64 == 0) by (bit_vector)
            requires v == 0 || v == 1;
        assert(data@ =~= output_encoding(mm@, ct@, result));
    }
    Ok(OracleOutput { lmsr_market_maker: mm, conditional_tokens: ct, result })
}

/// Appends the ABI word of `a` to `out`.
fn push_address_word(out: &mut Vec<u8>, a: &Address)
    ensures
        final(out)@ == old(out)@ + address_word(a@),
{
    let ghost start = out@;
    let mut i: usize = 0;
    while i < 12
        invariant
            i <= 12,
            out@ == start + Seq::new(i as nat, |j: int| 0u8),
        decreases 12 - i,
    {
        out.push(0u8);
        assert(out@ =~= start + Seq::new((i + 1) as nat, |j: int| 0u8));
        i += 1;
    }
    let mut k: usize = 0;
    while k < 20
        invariant
            k <= 20,
            out@ == start + Seq::new(12, |j: int| 0u8) + a@.subrange(0, k as int),
        decreases 20 - k,
    {
        out.push(a[k]);
        assert(out@ =~= start + Seq::new(12, |j: int| 0u8) + a@.subrange(0, k + 1));
        k += 1;
    }
    assert(a@.subrange(0, 20) =~= a@);
    assert(out@ =~= old(out)@ + address_word(a@));
}

/// Encodes the oracle's request payload.
pub fn encode_oracle_input(input: &OracleInput) -> (r: Vec<u8>)
    ensures
        r@ == input_encoding(input.lmsr_market_maker@, input.conditional_tokens@),
{
    let mut out: Vec<u8> = Vec::new();
    push_address_word(&mut out, &input.lmsr_market_maker);
    push_address_word(&mut out, &input.conditional_tokens);
    assert(out@ =~= input_encoding(input.lmsr_market_maker@, input.conditional_tokens@));
    out
}

/// The oracle's response to a trigger: the trigger's id, with the two
/// contracts of this deployment and the resolution that the computation gave.
pub fn oracle_response(
    t: &TriggerData,
    lmsr_market_maker: Address,
    conditional_tokens: Address,
    result: bool,
) -> (r: Result<Vec<u8>, CodecError>)
    ensures
        match r {
            Ok(b) => exists|d: Seq<u8>, id: u64|
                #[trigger] carries_envelope(*t, id, d) && b@ == envelope_encoding(
                    id,
                    output_encoding(lmsr_market_maker@, conditional_tokens@, result),
                ),
            Err(e) => if t.kind is Other {
                e is UnsupportedTriggerKind
            } else {
                e is MalformedTriggerEnvelope && forall|id: u64, d: Seq<u8>|
                    d.len() + 160 <= decode_limit() ==> !#[trigger] carries_envelope(*t, id, d)
            },
        },
{
    let info = decode_trigger_event(t)?;
    Ok(encode_trigger_output(info.trigger_id, lmsr_market_maker, conditional_tokens, result))
}

/// A news video record of the price service.
#[derive(Clone, Debug, PartialEq, Eq, Default)]
pub struct CoinBitesVideo {
    pub id: String,
    pub category: String,
    pub video_url: String,
    pub title: String,
    pub description: String,
    pub preview_image: String,
}

} // verus!

use alloy_sol_types::sol_data;
use alloy_sol_types::SolType;
use vstd::prelude::*;
use vstd::utf8::encode_utf8;

use crate::error::CodecError;

verus! {

/// A 32-byte ABI word holding an unsigned integer, big-endian.
pub open spec fn uint_word(n: u64) -> Seq<u8> {
    Seq::new(24, |i: int| 0u8) + seq![
        (n >> 56u64) as u8,
        (n >> 48u64) as u8,
        (n >> 40u64) as u8,
        (n >> 32u64) as u8,
        (n >> 24u64) as u8,
        (n >> 16u64) as u8,
        (n >> 8u64) as u8,
        n as u8,
    ]
}

/// Number of zero bytes that bring `n` bytes up to a whole number of words.
pub open spec fn pad_len(n: nat) -> nat {
    ((32 - (n % 32)) % 32) as nat
}

/// The tail of a dynamic `bytes` value: its length word, its bytes, and zero padding.
pub open spec fn bytes_tail(d: Seq<u8>) -> Seq<u8> {
    uint_word(d.len() as u64) + d + Seq::new(pad_len(d.len()), |i: int| 0u8)
}

/// ABI encoding of a single dynamic `bytes` (or `string`) value: an offset word then its tail.
pub open spec fn dynamic_encoding(d: Seq<u8>) -> Seq<u8> {
    uint_word(32) + bytes_tail(d)
}

/// ABI encoding of the envelope `{ uint64 triggerId, bytes data }` as a single value.
pub open spec fn envelope_encoding(id: u64, d: Seq<u8>) -> Seq<u8> {
    uint_word(32) + uint_word(id) + uint_word(64) + bytes_tail(d)
}

/// The most bytes that the ABI decoder allocates for one decode; a longer
/// dynamic value is refused.
pub open spec fn decode_limit() -> nat {
    1073741824
}

/// `b` is the canonical encoding of some envelope whose data the decoder
/// can hold.
pub open spec fn is_envelope_encoding(b: Seq<u8>) -> bool {
    exists|id: u64, d: Seq<u8>|
        d.len() <= decode_limit() && b == #[trigger] envelope_encoding(id, d)
}

/// `b` is the canonical encoding of some dynamic `bytes` value that the
/// decoder can hold.
pub open spec fn is_dynamic_encoding(b: Seq<u8>) -> bool {
    exists|d: Seq<u8>| d.len() <= decode_limit() && b == #[trigger] dynamic_encoding(d)
}

/// Different integers have different words.
pub proof fn lemma_uint_word_injective(x: u64, y: u64)
    requires
        uint_word(x) == uint_word(y),
    ensures
        x == y,
{
    let wx = uint_word(x);
    let wy = uint_word(y);
    assert(wx[24] == (x >> 56u64) as u8 && wy[24] == (y >> 56u64) as u8);
    assert(wx[25] == (x >> 48u64) as u8 && wy[25] == (y >> 48u64) as u8);
    assert(wx[26] == (x >> 40u64) as u8 && wy[26] == (y >> 40u64) as u8);
    assert(wx[27] == (x >> 32u64) as u8 && wy[27] == (y >> 32u64) as u8);
    assert(wx[28] == (x >> 24u64) as u8 && wy[28] == (y >> 24u64) as u8);
    assert(wx[29] == (x >> 16u64) as u8 && wy[29] == (y >> 16u64) as u8);
    assert(wx[30] == (x >> 8u64) as u8 && wy[30] == (y >> 8u64) as u8);
    assert(wx[31] == x as u8 && wy[31] == y as u8);
    assert(x == y) by (bit_vector)
        requires
            (x >> 56u64) as u8 == (y >> 56u64) as u8,
            (x >> 48u64) as u8 == (y >> 48u64) as u8,
            (x >> 40u64) as u8 == (y >> 40u64) as u8,
            (x >> 32u64) as u8 == (y >> 32u64) as u8,
            (x >> 24u64) as u8 == (y >> 24u64) as u8,
            (x >> 16u64) as u8 == (y >> 16u64) as u8,
            (x >> 8u64) as u8 == (y >> 8u64) as u8,
            x as u8 == y as u8,
    ;
}

/// Dynamic data is determined by its encoding.
pub proof fn lemma_dynamic_encoding_injective(a: Seq<u8>, b: Seq<u8>)
    requires
        dynamic_encoding(a) == dynamic_encoding(b),
        a.len() <= u64::MAX,
        b.len() <= u64::MAX,
    ensures
        a == b,
{
    let e = dynamic_encoding(a);
    assert(e.subrange(32, 64) =~= uint_word(a.len() as u64));
    assert(dynamic_encoding(b).subrange(32, 64) =~= uint_word(b.len() as u64));
    lemma_uint_word_injective(a.len() as u64, b.len() as u64);
    assert(e.subrange(64, 64 + a.len() as int) =~= a);
    assert(dynamic_encoding(b).subrange(64, 64 + b.len() as int) =~= b);
}

/// The request envelope that a trigger event carries.
#[derive(Debug, Clone, PartialEq, Eq)]
pub struct TriggerInfo {
    pub trigger_id: u64,
    pub data: Vec<u8>,
}

/// Relies on alloy_sol_types' `SolType::abi_encode` for `(uint64, bytes)`: the
/// standard head/tail layout of one dynamic tuple.
#[verifier::external_body]
fn abi_encode_envelope(id: u64, d: &[u8]) -> (r: Vec<u8>)
    ensures
        r@ == envelope_encoding(id, d@),
{
    let value = (id, alloy_primitives::Bytes::copy_from_slice(d));
    <(sol_data::Uint<64>, sol_data::Bytes) as SolType>::abi_encode(&value)
}

/// Relies on alloy_sol_types' `SolType::abi_decode` for `(uint64, bytes)`: a
/// canonical encoding decodes to the value it encodes, unless its data is
/// over the decoder's default memory limit of 1 GiB.
#[verifier::external_body]
fn abi_decode_envelope(b: &[u8]) -> (r: Option<(u64, Vec<u8>)>)
    ensures
        forall|id: u64, d: Seq<u8>|
            d.len() <= decode_limit() && b@ == #[trigger] envelope_encoding(id, d) ==> r is Some
                && r->Some_0.0 == id && r->Some_0.1@ == d,
{
    match <(sol_data::Uint<64>, sol_data::Bytes) as SolType>::abi_decode(b) {
        Ok((id, d)) => Some((id, d.to_vec())),
        Err(_) => None,
    }
}

/// Relies on alloy_sol_types' `SolType::abi_encode` for `bytes`: an offset
/// word, the length word, the bytes and their zero padding.
#[verifier::external_body]
fn abi_encode_bytes(d: &[u8]) -> (r: Vec<u8>)
    ensures
        r@ == dynamic_encoding(d@),
{
    <sol_data::Bytes as SolType>::abi_encode(&alloy_primitives::Bytes::copy_from_slice(d))
}

/// Relies on alloy_sol_types' `SolType::abi_decode` for `bytes`: a canonical
/// encoding decodes to the bytes it encodes, unless they are over the
/// decoder's default memory limit of 1 GiB.
#[verifier::external_body]
fn abi_decode_bytes(b: &[u8]) -> (r: Option<Vec<u8>>)
    ensures
        forall|d: Seq<u8>|
            d.len() <= decode_limit() && b@ == #[trigger] dynamic_encoding(d) ==> r is Some
                && r->Some_0@ == d,
{
    match <sol_data::Bytes as SolType>::abi_decode(b) {
        Ok(d) => Some(d.to_vec()),
        Err(_) => None,
    }
}

/// Whether two byte slices hold the same bytes.
pub fn bytes_equal(a: &[u8], b: &[u8]) -> (r: bool)
    ensures
        r == (a@ == b@),
{
    if a.len() != b.len() {
        return false;
    }
    let mut i: usize = 0;
    while i < a.len()
        invariant
            a@.len() == b@.len(),
            i <= a@.len(),
            a@.subrange(0, i as int) == b@.subrange(0, i as int),
        decreases a@.len() - i,
    {
        if a[i] != b[i] {
            assert(a@[i as int] != b@[i as int]);
            return false;
        }
        assert(a@.subrange(0, i + 1) == a@.subrange(0, i as int).push(a@[i as int]));
        assert(b@.subrange(0, i + 1) == b@.subrange(0, i as int).push(b@[i as int]));
        i += 1;
    }
    assert(a@ == a@.subrange(0, a@.len() as int));
    assert(b@ == b@.subrange(0, b@.len() as int));
    true
}

/// Strictly decodes a trigger envelope: exactly the canonical encodings of
/// `{ uint64 triggerId, bytes data }` are accepted.
pub fn decode_trigger(bytes: &[u8]) -> (r: Result<TriggerInfo, CodecError>)
    ensures
        match r {
            Ok(t) => bytes@ == envelope_encoding(t.trigger_id, t.data@),
            Err(e) => e is MalformedTriggerEnvelope && !is_envelope_encoding(bytes@),
        },
{
    match abi_decode_envelope(bytes) {
        Some((id, d)) => {
            let again = abi_encode_envelope(id, d.as_slice());
            if bytes_equal(again.as_slice(), bytes) {
                Ok(TriggerInfo { trigger_id: id, data: d })
            } else {
                assert(!is_envelope_encoding(bytes@)) by {
                    if is_envelope_encoding(bytes@) {
                        let (id2, d2) = choose|id2: u64, d2: Seq<u8>|
                            d2.len() <= decode_limit()
                                && bytes@ == #[trigger] envelope_encoding(id2, d2);
                        assert(bytes@ == envelope_encoding(id2, d2));
                    }
                }
                Err(CodecError::MalformedTriggerEnvelope)
            }
        },
        None => {
            assert(!is_envelope_encoding(bytes@)) by {
                if is_envelope_encoding(bytes@) {
                    let (id2, d2) = choose|id2: u64, d2: Seq<u8>|
                        bytes@ == #[trigger] envelope_encoding(id2, d2);
                    assert(bytes@ == envelope_encoding(id2, d2));
                }
            }
            Err(CodecError::MalformedTriggerEnvelope)
        },
    }
}

/// Encodes the response envelope `{ triggerId, data }`.
pub fn encode_output(trigger_id: u64, result: &[u8]) -> (r: Vec<u8>)
    ensures
        r@ == envelope_encoding(trigger_id, result@),
{
    abi_encode_envelope(trigger_id, result)
}

/// Strictly decodes one dynamic `bytes` value: `None` for anything but a
/// canonical encoding.
pub fn decode_dynamic(bytes: &[u8]) -> (r: Option<Vec<u8>>)
    ensures
        match r {
            Some(d) => bytes@ == dynamic_encoding(d@),
            None => !is_dynamic_encoding(bytes@),
        },
{
    match abi_decode_bytes(bytes) {
        Some(d) => {
            let again = abi_encode_bytes(d.as_slice());
            if bytes_equal(again.as_slice(), bytes) {
                Some(d)
            } else {
                assert(!is_dynamic_encoding(bytes@)) by {
                    if is_dynamic_encoding(bytes@) {
                        let d2 = choose|d2: Seq<u8>|
                            d2.len() <= decode_limit() && bytes@ == #[trigger] dynamic_encoding(d2);
                        assert(bytes@ == dynamic_encoding(d2));
                    }
                }
                None
            }
        },
        None => {
            assert(!is_dynamic_encoding(bytes@)) by {
                if is_dynamic_encoding(bytes@) {
                    let d2 = choose|d2: Seq<u8>|
                            d2.len() <= decode_limit() && bytes@ == #[trigger] dynamic_encoding(d2);
                    assert(bytes@ == dynamic_encoding(d2));
                }
            }
            None
        },
    }
}

/// Encodes one dynamic `bytes` value.
pub fn encode_dynamic(d: &[u8]) -> (r: Vec<u8>)
    ensures
        r@ == dynamic_encoding(d@),
{
    abi_encode_bytes(d)
}

/// ABI encoding of a single `string` value: its UTF-8 bytes as dynamic data.
pub open spec fn string_encoding(s: Seq<char>) -> Seq<u8> {
    dynamic_encoding(encode_utf8(s))
}

/// `b` is the canonical encoding of some string that the decoder can hold.
pub open spec fn is_string_encoding(b: Seq<u8>) -> bool {
    exists|s: Seq<char>|
        encode_utf8(s).len() <= decode_limit() && b == #[trigger] string_encoding(s)
}

/// Relies on alloy_sol_types' `SolType::abi_encode` for `string`: the UTF-8
/// bytes laid out as dynamic data.
#[verifier::external_body]
fn abi_encode_string(s: &str) -> (r: Vec<u8>)
    ensures
        r@ == string_encoding(s@),
{
    <sol_data::String as SolType>::abi_encode(s)
}

/// Relies on alloy_sol_types' `SolType::abi_decode` for `string`: a canonical
/// encoding decodes to the string it encodes, unless its bytes are over the
/// decoder's default memory limit of 1 GiB.
#[verifier::external_body]
fn abi_decode_string(b: &[u8]) -> (r: Option<String>)
    ensures
        forall|s: Seq<char>|
            encode_utf8(s).len() <= decode_limit() && b@ == #[trigger] string_encoding(s)
                ==> r is Some && r->Some_0@ == s,
{
    <sol_data::String as SolType>::abi_decode(b).ok()
}

/// Encodes one `string` value.
pub fn encode_string(s: &str) -> (r: Vec<u8>)
    ensures
        r@ == string_encoding(s@),
{
    abi_encode_string(s)
}

/// Strictly decodes one `string` value: `None` for anything but a canonical
/// encoding (invalid UTF-8 included).
pub fn decode_string(bytes: &[u8]) -> (r: Option<String>)
    ensures
        match r {
            Some(s) => bytes@ == string_encoding(s@),
            None => !is_string_encoding(bytes@),
        },
{
    match abi_decode_string(bytes) {
        Some(s) => {
            let again = abi_encode_string(s.as_str());
            if bytes_equal(again.as_slice(), bytes) {
                Some(s)
            } else {
                assert(!is_string_encoding(bytes@)) by {
                    if is_string_encoding(bytes@) {
                        let s2 = choose|s2: Seq<char>|
                            encode_utf8(s2).len() <= decode_limit()
                                && bytes@ == #[trigger] string_encoding(s2);
                        assert(bytes@ == string_encoding(s2));
                    }
                }
                None
            }
        },
        None => {
            assert(!is_string_encoding(bytes@)) by {
                if is_string_encoding(bytes@) {
                    let s2 = choose|s2: Seq<char>|
                            encode_utf8(s2).len() <= decode_limit()
                                && bytes@ == #[trigger] string_encoding(s2);
                    assert(bytes@ == string_encoding(s2));
                }
            }
            None
        },
    }
}

} // verus!

use vstd::prelude::*;
use vstd::utf8::{encode_utf8, encode_utf8_decode_utf8};

use crate::abi::{
    bytes_tail, decode_limit, dynamic_encoding, envelope_encoding, is_dynamic_encoding, is_envelope_encoding,
    is_string_encoding, lemma_dynamic_encoding_injective, lemma_uint_word_injective, pad_len,
    string_encoding, uint_word,
};
use crate::oracle::{input_encoding, output_encoding};

verus! {

/// An envelope is determined by its encoding: the id and the data that a
/// decoder reads back are the ones that were encoded.
pub proof fn lemma_envelope_unique(id: u64, d: Seq<u8>, id2: u64, d2: Seq<u8>)
    requires
        envelope_encoding(id, d) == envelope_encoding(id2, d2),
        d.len() <= u64::MAX,
        d2.len() <= u64::MAX,
    ensures
        id == id2,
        d == d2,
{
    let e = envelope_encoding(id, d);
    let e2 = envelope_encoding(id2, d2);
    assert(e.subrange(32, 64) =~= uint_word(id));
    assert(e2.subrange(32, 64) =~= uint_word(id2));
    lemma_uint_word_injective(id, id2);
    assert(e.subrange(96, 128) =~= uint_word(d.len() as u64));
    assert(e2.subrange(96, 128) =~= uint_word(d2.len() as u64));
    lemma_uint_word_injective(d.len() as u64, d2.len() as u64);
    assert(e.subrange(128, 128 + d.len() as int) =~= d);
    assert(e2.subrange(128, 128 + d2.len() as int) =~= d2);
}

/// The trigger id goes through unchanged: when a request envelope decodes to
/// `{ id, d }` and the response is encoded with that id and any result, the
/// only envelope that the response encodes has that same id (and that result).
pub proof fn lemma_trigger_id_propagates(
    request: Seq<u8>,
    id: u64,
    d: Seq<u8>,
    result: Seq<u8>,
    read_id: u64,
    read_data: Seq<u8>,
)
    requires
        request == envelope_encoding(id, d),
        envelope_encoding(id, result) == envelope_encoding(read_id, read_data),
        result.len() <= u64::MAX,
        read_data.len() <= u64::MAX,
    ensures
        read_id == id,
        read_data == result,
{
    lemma_envelope_unique(id, result, read_id, read_data);
}

/// A string payload round-trips: when its bytes are within the decoder's
/// limit, its encoding is accepted by the strict decoder, and the only string
/// it decodes to is the one encoded.
pub proof fn lemma_string_round_trip(s: Seq<char>, decoded: Seq<char>)
    requires
        string_encoding(decoded) == string_encoding(s),
        encode_utf8(s).len() <= decode_limit(),
        encode_utf8(decoded).len() <= u64::MAX,
    ensures
        is_string_encoding(string_encoding(s)),
        decoded == s,
{
    lemma_dynamic_encoding_injective(encode_utf8(decoded), encode_utf8(s));
    encode_utf8_decode_utf8(s);
    encode_utf8_decode_utf8(decoded);
}

/// A bytes value within the decoder's limit round-trips through its dynamic
/// encoding.
pub proof fn lemma_dynamic_round_trip(d: Seq<u8>, decoded: Seq<u8>)
    requires
        dynamic_encoding(decoded) == dynamic_encoding(d),
        d.len() <= decode_limit(),
        decoded.len() <= u64::MAX,
    ensures
        is_dynamic_encoding(dynamic_encoding(d)),
        decoded == d,
{
    lemma_dynamic_encoding_injective(decoded, d);
}

/// The oracle's request record round-trips: the decoder reads back the
/// addresses that were encoded.
pub proof fn lemma_oracle_input_round_trip(mm: Seq<u8>, ct: Seq<u8>, mm2: Seq<u8>, ct2: Seq<u8>)
    requires
        mm.len() == 20,
        ct.len() == 20,
        mm2.len() == 20,
        ct2.len() == 20,
        input_encoding(mm2, ct2) == input_encoding(mm, ct),
    ensures
        mm2 == mm,
        ct2 == ct,
{
    let e = input_encoding(mm, ct);
    assert(e.subrange(12, 32) =~= mm);
    assert(e.subrange(44, 64) =~= ct);
    assert(input_encoding(mm2, ct2).subrange(12, 32) =~= mm2);
    assert(input_encoding(mm2, ct2).subrange(44, 64) =~= ct2);
}

/// The oracle's answer record round-trips: the decoder reads back the
/// addresses and the resolution that were encoded.
pub proof fn lemma_oracle_output_round_trip(
    mm: Seq<u8>,
    ct: Seq<u8>,
    result: bool,
    mm2: Seq<u8>,
    ct2: Seq<u8>,
    result2: bool,
)
    requires
        mm.len() == 20,
        ct.len() == 20,
        mm2.len() == 20,
        ct2.len() == 20,
        output_encoding(mm2, ct2, result2) == output_encoding(mm, ct, result),
    ensures
        mm2 == mm,
        ct2 == ct,
        result2 == result,
{
    let e = output_encoding(mm, ct, result);
    let e2 = output_encoding(mm2, ct2, result2);
    assert(e.subrange(12, 32) =~= mm);
    assert(e.subrange(44, 64) =~= ct);
    assert(e2.subrange(12, 32) =~= mm2);
    assert(e2.subrange(44, 64) =~= ct2);
    assert(e[95] == (if result { 1u64 } else { 0u64 }) as u8);
    assert(e2[95] == (if result2 { 1u64 } else { 0u64 }) as u8);
}

/// Every dynamic tail fills whole words.
pub proof fn lemma_tail_whole_words(d: Seq<u8>)
    ensures
        bytes_tail(d).len() % 32 == 0,
        bytes_tail(d).len() >= 32,
{
    let n = d.len();
    assert((n + pad_len(n)) % 32 == 0) by (nonlinear_arith)
        requires
            pad_len(n) == (32 - (n % 32)) % 32,
    ;
}

/// Malformed envelopes are refused: one that is shorter than four words, is
/// not a whole number of words, or whose length word has a nonzero high byte
/// (a length that reads as negative or huge) is no envelope encoding.
pub proof fn lemma_malformed_envelope(b: Seq<u8>)
    requires
        b.len() < 128 || b.len() % 32 != 0 || b[96] != 0,
    ensures
        !is_envelope_encoding(b),
{
    if is_envelope_encoding(b) {
        let (id, d) = choose|id: u64, d: Seq<u8>| b == #[trigger] envelope_encoding(id, d);
        lemma_tail_whole_words(d);
        assert(b[96] == uint_word(d.len() as u64)[0]);
    }
}

/// Malformed string or bytes payloads are refused: one that is shorter than
/// two words, is not a whole number of words, or whose length word has a
/// nonzero high byte is no dynamic encoding.
pub proof fn lemma_malformed_dynamic(b: Seq<u8>)
    requires
        b.len() < 64 || b.len() % 32 != 0 || b[32] != 0,
    ensures
        !is_dynamic_encoding(b),
        !is_string_encoding(b),
{
    if is_dynamic_encoding(b) {
        let d = choose|d: Seq<u8>| b == #[trigger] dynamic_encoding(d);
        lemma_tail_whole_words(d);
        assert(b[32] == uint_word(d.len() as u64)[0]);
    }
    if is_string_encoding(b) {
        let s = choose|s: Seq<char>| b == #[trigger] string_encoding(s);
        let d = encode_utf8(s);
        lemma_tail_whole_words(d);
        assert(b[32] == uint_word(d.len() as u64)[0]);
    }
}

/// Malformed envelopes are refused, word by word: an envelope whose outer
/// offset word is not 32, whose inner offset word is not 64, whose length word
/// has any nonzero byte above its low eight (a length that reads as negative or
/// beyond any buffer), or whose length word `n` runs past the end of the
/// bytes, is no envelope encoding.
pub proof fn lemma_malformed_envelope_words(b: Seq<u8>, n: u64)
    requires
        128 <= b.len() <= u64::MAX,
        b.subrange(0, 32) != uint_word(32) || b.subrange(64, 96) != uint_word(64) || (exists|
            j: int,
        | 96 <= j < 120 && b[j] != 0) || (b.subrange(96, 128) == uint_word(n) && 128 + n
            > b.len()),
    ensures
        !is_envelope_encoding(b),
{
    if is_envelope_encoding(b) {
        let (id, d) = choose|id: u64, d: Seq<u8>|
            d.len() <= decode_limit() && b == #[trigger] envelope_encoding(id, d);
        assert(b.subrange(0, 32) =~= uint_word(32));
        assert(b.subrange(64, 96) =~= uint_word(64));
        assert(b.subrange(96, 128) =~= uint_word(d.len() as u64));
        assert(forall|j: int| 96 <= j < 120 ==> b[j] == uint_word(d.len() as u64)[j - 96]);
        if b.subrange(96, 128) == uint_word(n) {
            lemma_uint_word_injective(n, d.len() as u64);
        }
    }
}

/// Malformed string or bytes payloads are refused, word by word: one whose
/// offset word is not 32, whose length word has any nonzero byte above its
/// low eight, or whose length word `n` runs past the end of the bytes, is no
/// dynamic encoding.
pub proof fn lemma_malformed_dynamic_words(b: Seq<u8>, n: u64)
    requires
        64 <= b.len() <= u64::MAX,
        b.subrange(0, 32) != uint_word(32) || (exists|j: int| 32 <= j < 56 && b[j] != 0) || (
        b.subrange(32, 64) == uint_word(n) && 64 + n > b.len()),
    ensures
        !is_dynamic_encoding(b),
        !is_string_encoding(b),
{
    if is_dynamic_encoding(b) {
        let d = choose|d: Seq<u8>| d.len() <= decode_limit() && b == #[trigger] dynamic_encoding(d);
        lemma_dynamic_words(b, d, n);
    }
    if is_string_encoding(b) {
        let s = choose|s: Seq<char>|
            encode_utf8(s).len() <= decode_limit() && b == #[trigger] string_encoding(s);
        lemma_dynamic_words(b, encode_utf8(s), n);
    }
}

proof fn lemma_dynamic_words(b: Seq<u8>, d: Seq<u8>, n: u64)
    requires
        b == dynamic_encoding(d),
        b.len() <= u64::MAX,
    ensures
        b.subrange(0, 32) == uint_word(32),
        forall|j: int| 32 <= j < 56 ==> b[j] == 0,
        b.subrange(32, 64) == uint_word(n) ==> 64 + n <= b.len(),
{
    assert(b.subrange(0, 32) =~= uint_word(32));
    assert(b.subrange(32, 64) =~= uint_word(d.len() as u64));
    assert(forall|j: int| 32 <= j < 56 ==> b[j] == uint_word(d.len() as u64)[j - 32]);
    if b.subrange(32, 64) == uint_word(n) {
        lemma_uint_word_injective(n, d.len() as u64);
    }
}

/// The artist's request round-trips through both layers: a prompt encoded as
/// a string and wrapped in an envelope reads back as the same trigger id and
/// the same prompt, and nothing else.
pub proof fn lemma_prompt_envelope_round_trip(
    id: u64,
    prompt: Seq<char>,
    read_id: u64,
    read_data: Seq<u8>,
    read_prompt: Seq<char>,
)
    requires
        envelope_encoding(read_id, read_data) == envelope_encoding(id, string_encoding(prompt)),
        read_data == string_encoding(read_prompt),
        encode_utf8(prompt).len() + 64 <= decode_limit(),
        encode_utf8(read_prompt).len() <= u64::MAX,
    ensures
        read_id == id,
        read_prompt == prompt,
{
    let d = string_encoding(prompt);
    lemma_tail_whole_words(encode_utf8(prompt));
    assert(envelope_encoding(read_id, read_data).len() == 128 + read_data.len() + pad_len(
        read_data.len(),
    ));
    lemma_envelope_unique(read_id, read_data, id, d);
    lemma_string_round_trip(prompt, read_prompt);
}

} // verus!

use base64::Engine;
use vstd::prelude::*;
use vstd::string::*;
use vstd::utf8::encode_utf8;

use crate::abi::{
    decode_limit, decode_string, encode_output, encode_string, envelope_encoding, string_encoding,
};
use crate::error::CodecError;
use crate::trigger::{carries_envelope, decode_trigger_event, TriggerData};

verus! {

/// Names the JSON text that serde_json writes for a string: the quoted,
/// escaped literal.
pub uninterp spec fn json_string_of(s: Seq<char>) -> Seq<char>;

/// Names the standard, padded base64 text of the UTF-8 bytes of a string.
pub uninterp spec fn base64_of(s: Seq<char>) -> Seq<char>;

/// Relies on `serde_json::to_string` applied to a `str`: it writes the JSON
/// string literal of `s` into a `Vec`, which cannot fail for a `str`.
#[verifier::external_body]
fn json_quote(s: &str) -> (r: Option<String>)
    ensures
        r is Some,
        r matches Some(q) ==> q@ == json_string_of(s@),
{
    serde_json::to_string(s).ok()
}

/// Relies on base64's `STANDARD` engine `encode`, applied to the bytes of `s`.
#[verifier::external_body]
fn base64_standard(s: &str) -> (r: String)
    ensures
        r@ == base64_of(s@),
{
    base64::engine::general_purpose::STANDARD.encode(s)
}

/// One trait of the generated token.
#[derive(Debug, Clone, PartialEq, Eq)]
pub struct Attribute {
    pub trait_type: String,
    pub value: String,
}

/// The token metadata record that the artist answers with.
#[derive(Debug, Clone, PartialEq, Eq)]
pub struct NftMetadata {
    pub name: String,
    pub description: String,
    pub image: String,
    pub attributes: Vec<Attribute>,
}

/// The JSON object of one attribute, as serde_json writes it.
pub open spec fn attribute_json(a: Attribute) -> Seq<char> {
    "{\"trait_type\":"@ + json_string_of(a.trait_type@) + ",\"value\":"@ + json_string_of(
        a.value@,
    ) + "}"@
}

/// The attributes' objects, separated by commas.
pub open spec fn attributes_json(attrs: Seq<Attribute>) -> Seq<char>
    decreases attrs.len(),
{
    if attrs.len() == 0 {
        Seq::empty()
    } else if attrs.len() == 1 {
        attribute_json(attrs[0])
    } else {
        attributes_json(attrs.drop_last()) + ","@ + attribute_json(attrs.last())
    }
}

/// The metadata as one compact JSON object, fields in declaration order.
pub open spec fn metadata_json(m: NftMetadata) -> Seq<char> {
    "{\"name\":"@ + json_string_of(m.name@) + ",\"description\":"@ + json_string_of(
        m.description@,
    ) + ",\"image\":"@ + json_string_of(m.image@) + ",\"attributes\":["@ + attributes_json(
        m.attributes@,
    ) + "]}"@
}

/// The data URI that embeds a JSON document as base64.
pub open spec fn data_uri(json: Seq<char>) -> Seq<char> {
    "data:application/json;base64,"@ + base64_of(json)
}

/// The metadata JSON that answers `prompt` with the generated `description`:
/// a fixed name and image, and the prompt as the one attribute.
pub open spec fn artist_json(prompt: Seq<char>, description: Seq<char>) -> Seq<char> {
    "{\"name\":"@ + json_string_of("AI Generated NFT"@) + ",\"description\":"@ + json_string_of(
        description,
    ) + ",\"image\":"@ + json_string_of("ipfs://placeholder"@) + ",\"attributes\":["@ + (
    "{\"trait_type\":"@ + json_string_of("Prompt"@) + ",\"value\":"@ + json_string_of(prompt)
        + "}"@) + "]}"@
}

/// Appends the JSON literal of `s` to `out`.
fn push_json_string(out: &mut String, s: &str)
    ensures
        final(out)@ == old(out)@ + json_string_of(s@),
{
    if let Some(q) = json_quote(s) {
        out.append(q.as_str());
    }
}

/// Serializes one attribute.
fn attribute_to_json(out: &mut String, a: &Attribute)
    ensures
        final(out)@ == old(out)@ + attribute_json(*a),
{
    out.append("{\"trait_type\":");
    push_json_string(out, a.trait_type.as_str());
    out.append(",\"value\":");
    push_json_string(out, a.value.as_str());
    out.append("}");
}

/// Serializes the metadata record as compact JSON; this always succeeds.
pub fn to_json(m: &NftMetadata) -> (r: Result<String, CodecError>)
    ensures
        r is Ok,
        r matches Ok(s) ==> s@ == metadata_json(*m),
{
    let mut out = String::from_str("{\"name\":");
    push_json_string(&mut out, m.name.as_str());
    out.append(",\"description\":");
    push_json_string(&mut out, m.description.as_str());
    out.append(",\"image\":");
    push_json_string(&mut out, m.image.as_str());
    out.append(",\"attributes\":[");
    let ghost head = out@;
    let mut i: usize = 0;
    while i < m.attributes.len()
        invariant
            i <= m.attributes@.len(),
            out@ == head + attributes_json(m.attributes@.subrange(0, i as int)),
        decreases m.attributes@.len() - i,
    {
        let ghost before = out@;
        if i > 0 {
            out.append(",");
        }
        attribute_to_json(&mut out, &m.attributes[i]);
        proof {
            let next = m.attributes@.subrange(0, i + 1);
            assert(next.drop_last() =~= m.attributes@.subrange(0, i as int));
            assert(next.last() == m.attributes@[i as int]);
            if i == 0 {
                assert(m.attributes@.subrange(0, 0) =~= Seq::<Attribute>::empty());
                assert(out@ =~= head + attributes_json(next));
            } else {
                assert(out@ =~= head + attributes_json(next));
            }
        }
        i += 1;
    }
    assert(m.attributes@.subrange(0, m.attributes@.len() as int) =~= m.attributes@);
    out.append("]}");
    Ok(out)
}

/// The metadata record that answers `prompt` with the generated `description`.
pub fn artist_metadata(prompt: &str, description: &str) -> (r: NftMetadata)
    ensures
        r.name@ == "AI Generated NFT"@,
        r.description@ == description@,
        r.image@ == "ipfs://placeholder"@,
        r.attributes@.len() == 1,
        r.attributes@[0].trait_type@ == "Prompt"@,
        r.attributes@[0].value@ == prompt@,
{
    let attribute = Attribute {
        trait_type: String::from_str("Prompt"),
        value: String::from_str(prompt),
    };
    NftMetadata {
        name: String::from_str("AI Generated NFT"),
        description: String::from_str(description),
        image: String::from_str("ipfs://placeholder"),
        attributes: vec![attribute],
    }
}

/// Embeds a JSON document in a base64 data URI.
pub fn to_data_uri(json: &str) -> (r: String)
    ensures
        r@ == data_uri(json@),
{
    let mut uri = String::from_str("data:application/json;base64,");
    let encoded = base64_standard(json);
    uri.append(encoded.as_str());
    uri
}

/// Strictly decodes the artist's request payload: one ABI string, the prompt.
pub fn decode_prompt(data: &[u8]) -> (r: Result<String, CodecError>)
    ensures
        match r {
            Ok(s) => data@ == string_encoding(s@),
            Err(e) => e is MalformedPayload && forall|s: Seq<char>|
                encode_utf8(s).len() <= decode_limit() ==> data@ != #[trigger] string_encoding(s),
        },
{
    match decode_string(data) {
        Some(s) => Ok(s),
        None => Err(CodecError::MalformedPayload),
    }
}

/// Encodes the artist's request payload.
pub fn encode_prompt(prompt: &str) -> (r: Vec<u8>)
    ensures
        r@ == string_encoding(prompt@),
{
    encode_string(prompt)
}

/// Encodes the response envelope whose data is `output`, as given.
pub fn encode_trigger_output(trigger_id: u64, output: &[u8]) -> (r: Vec<u8>)
    ensures
        r@ == envelope_encoding(trigger_id, output@),
{
    encode_output(trigger_id, output)
}

/// The response to a trigger, given the metadata JSON already serialized: the
/// JSON goes into a data URI, which is ABI-encoded as a string and enveloped.
pub fn encode_metadata_response(trigger_id: u64, json: &str) -> (r: Vec<u8>)
    ensures
        r@ == envelope_encoding(trigger_id, string_encoding(data_uri(json@))),
{
    let uri = to_data_uri(json);
    let payload = encode_string(uri.as_str());
    encode_output(trigger_id, payload.as_slice())
}

/// What the artist is asked: the trigger's id and the prompt.
#[derive(Debug, Clone, PartialEq, Eq)]
pub struct ArtistRequest {
    pub trigger_id: u64,
    pub prompt: String,
}

/// Decodes the trigger event and the prompt that its envelope carries.
pub fn artist_request(t: &TriggerData) -> (r: Result<ArtistRequest, CodecError>)
    ensures
        match r {
            Ok(q) => carries_envelope(*t, q.trigger_id, string_encoding(q.prompt@)),
            Err(e) => if t.kind is Other {
                e is UnsupportedTriggerKind
            } else {
                (e is MalformedTriggerEnvelope && forall|id: u64, d: Seq<u8>|
                    d.len() + 160 <= decode_limit() ==> !#[trigger] carries_envelope(*t, id, d)) || (
                e is MalformedPayload && exists|id: u64, d: Seq<u8>|
                    #[trigger] carries_envelope(*t, id, d) && forall|s: Seq<char>|
                        encode_utf8(s).len() <= decode_limit() ==> d != #[trigger] string_encoding(
                            s,
                        ))
            },
        },
{
    let info = decode_trigger_event(t)?;
    let prompt = decode_prompt(info.data.as_slice())?;
    Ok(ArtistRequest { trigger_id: info.trigger_id, prompt })
}

/// The whole response of the artist to `prompt`, once the computation gave
/// `description`.
pub fn artist_response(trigger_id: u64, prompt: &str, description: &str) -> (r: Result<
    Vec<u8>,
    CodecError,
>)
    ensures
        r is Ok,
        r matches Ok(b) ==> b@ == envelope_encoding(
            trigger_id,
            string_encoding(data_uri(artist_json(prompt@, description@))),
        ),
{
    let m = artist_metadata(prompt, description);
    let json = to_json(&m)?;
    proof {
        let a = m.attributes@;
        assert(a.subrange(0, 1) =~= a);
        assert(attributes_json(a) == attribute_json(a[0]));
        assert(metadata_json(m) =~= artist_json(prompt@, description@));
    }
    Ok(encode_metadata_response(trigger_id, json.as_str()))
}

} // verus!

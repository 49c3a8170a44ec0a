use base64::Engine;
use trigger_codec::abi::{
    decode_dynamic, decode_string, decode_trigger, encode_dynamic, encode_output, encode_string,
};
use trigger_codec::artist::{
    artist_metadata, artist_request, artist_response, decode_prompt, encode_metadata_response,
    encode_prompt, encode_trigger_output as artist_encode_trigger_output, to_data_uri, to_json,
    Attribute, NftMetadata,
};
use trigger_codec::compute::{chat_outcome, check_status, decimal, ChatReply};
use trigger_codec::error::CodecError;
use trigger_codec::oracle::{
    decode_oracle_input, decode_oracle_output, encode_oracle_input, encode_oracle_output,
    encode_trigger_output, oracle_response, CoinBitesVideo, OracleInput, OracleOutput,
};
use trigger_codec::trigger::{
    decode_trigger_event, new_trigger_topic, unwrap_event_log, EventLog, TriggerData, TriggerKind,
};

fn word(n: u64) -> Vec<u8> {
    let mut w = vec![0u8; 24];
    w.extend_from_slice(&n.to_be_bytes());
    w
}

fn trigger_for(kind: TriggerKind, trigger_id: u64, payload: &[u8]) -> TriggerData {
    let envelope = encode_output(trigger_id, payload);
    TriggerData {
        kind,
        log: EventLog { topics: vec![new_trigger_topic()], data: encode_dynamic(&envelope) },
    }
}

fn address(last: u8) -> [u8; 20] {
    let mut a = [0u8; 20];
    a[19] = last;
    a
}

fn is_malformed_envelope(r: &Result<trigger_codec::abi::TriggerInfo, CodecError>) -> bool {
    matches!(r, Err(CodecError::MalformedTriggerEnvelope))
}

#[test]
fn envelope_bytes_are_the_abi_layout() {
    let bytes = encode_output(42, b"hi");
    let mut expected = word(32);
    expected.extend(word(42));
    expected.extend(word(64));
    expected.extend(word(2));
    let mut tail = b"hi".to_vec();
    tail.resize(32, 0);
    expected.extend(tail);
    assert_eq!(bytes, expected);
}

#[test]
fn envelope_round_trips() {
    let bytes = encode_output(u64::MAX, &[1, 2, 3]);
    let info = decode_trigger(&bytes).unwrap();
    assert_eq!(info.trigger_id, u64::MAX);
    assert_eq!(info.data, vec![1, 2, 3]);
}

#[test]
fn trigger_id_propagates_to_output() {
    let request = encode_output(1234, &encode_prompt("anything"));
    let info = decode_trigger(&request).unwrap();
    let out = artist_encode_trigger_output(info.trigger_id, b"some result");
    let back = decode_trigger(&out).unwrap();
    assert_eq!(back.trigger_id, 1234);
    assert_eq!(back.data, b"some result".to_vec());
}

#[test]
fn string_round_trip_empty() {
    let bytes = encode_prompt("");
    assert_eq!(bytes.len(), 64);
    assert_eq!(decode_prompt(&bytes).unwrap(), "");
}

#[test]
fn string_round_trip_multibyte() {
    let s = "héllo wörld — 日本語 🎨";
    assert_eq!(decode_prompt(&encode_prompt(s)).unwrap(), s);
}

#[test]
fn string_round_trip_long() {
    let s = "abcdefghij".repeat(1000);
    let bytes = encode_string(&s);
    assert_eq!(bytes.len(), 64 + 10000 + 16);
    assert_eq!(decode_string(&bytes).unwrap(), s);
}

#[test]
fn oracle_input_round_trip_zero_and_max() {
    for a in [[0u8; 20], [0xffu8; 20]] {
        let input = OracleInput { lmsr_market_maker: a, conditional_tokens: a };
        let bytes = encode_oracle_input(&input);
        assert_eq!(bytes.len(), 64);
        let back = decode_oracle_input(&bytes).unwrap();
        assert_eq!(back.lmsr_market_maker, a);
        assert_eq!(back.conditional_tokens, a);
    }
}

#[test]
fn oracle_output_round_trip_both_results() {
    for (a, b) in [([0u8; 20], [0xffu8; 20]), ([0xffu8; 20], [0u8; 20])] {
        for result in [true, false] {
            let out = OracleOutput { lmsr_market_maker: a, conditional_tokens: b, result };
            let bytes = encode_oracle_output(&out);
            assert_eq!(bytes.len(), 96);
            assert_eq!(bytes[95], result as u8);
            let back = decode_oracle_output(&bytes).unwrap();
            assert_eq!(back.lmsr_market_maker, a);
            assert_eq!(back.conditional_tokens, b);
            assert_eq!(back.result, result);
        }
    }
}

#[test]
fn malformed_truncated_length_prefix() {
    let bytes = encode_output(5, b"abc");
    assert!(is_malformed_envelope(&decode_trigger(&bytes[..100])));
    assert!(is_malformed_envelope(&decode_trigger(&[])));
    let s = encode_string("abc");
    assert!(matches!(decode_prompt(&s[..40]), Err(CodecError::MalformedPayload)));
}

#[test]
fn malformed_not_whole_words() {
    let mut bytes = encode_output(5, b"abc");
    bytes.push(0);
    assert!(is_malformed_envelope(&decode_trigger(&bytes)));
    let mut s = encode_string("abc");
    s.pop();
    assert!(matches!(decode_prompt(&s), Err(CodecError::MalformedPayload)));
}

#[test]
fn malformed_negative_length() {
    let mut bytes = encode_output(5, b"abc");
    bytes[96] = 0xff;
    assert!(is_malformed_envelope(&decode_trigger(&bytes)));
    let mut s = encode_string("abc");
    for b in &mut s[32..64] {
        *b = 0xff;
    }
    assert!(matches!(decode_prompt(&s), Err(CodecError::MalformedPayload)));
}

#[test]
fn malformed_noncanonical_is_refused() {
    let mut bytes = encode_output(5, b"abc");
    bytes[127 + 4] = 1; // a nonzero padding byte
    assert!(is_malformed_envelope(&decode_trigger(&bytes)));
    let mut s = encode_string("abc");
    s[64] = 0xff; // not UTF-8
    assert!(decode_string(&s).is_none());
    assert!(decode_dynamic(&s).is_some());
    let mut o = encode_oracle_output(&OracleOutput {
        lmsr_market_maker: address(1),
        conditional_tokens: address(2),
        result: true,
    });
    o[95] = 2;
    assert!(matches!(decode_oracle_output(&o), Err(CodecError::MalformedPayload)));
    o[95] = 1;
    o[0] = 1;
    assert!(matches!(decode_oracle_output(&o), Err(CodecError::MalformedPayload)));
}

#[test]
fn unsupported_trigger_kind() {
    let t = trigger_for(TriggerKind::Other, 1, &encode_prompt("x"));
    assert!(matches!(decode_trigger_event(&t), Err(CodecError::UnsupportedTriggerKind)));
    let garbage = TriggerData { kind: TriggerKind::Other, log: EventLog { topics: vec![], data: vec![1] } };
    assert!(matches!(decode_trigger_event(&garbage), Err(CodecError::UnsupportedTriggerKind)));
    assert!(matches!(artist_request(&garbage), Err(CodecError::UnsupportedTriggerKind)));
}

#[test]
fn both_event_kinds_are_accepted() {
    for kind in [TriggerKind::ContractEvent, TriggerKind::EvmContractEvent] {
        let t = trigger_for(kind, 9, b"payload");
        let info = decode_trigger_event(&t).unwrap();
        assert_eq!(info.trigger_id, 9);
        assert_eq!(info.data, b"payload".to_vec());
    }
}

#[test]
fn wrong_topic_is_malformed() {
    let mut t = trigger_for(TriggerKind::ContractEvent, 9, b"payload");
    t.log.topics[0][0] ^= 1;
    assert!(matches!(unwrap_event_log(&t.log), Err(CodecError::MalformedTriggerEnvelope)));
    t.log.topics.clear();
    assert!(is_malformed_envelope(&decode_trigger_event(&t)));
}

#[test]
fn topic_is_keccak_of_event_signature() {
    let expected = alloy_primitives::keccak256(b"NewTrigger(bytes)");
    assert_eq!(new_trigger_topic(), expected.0);
    assert_ne!(new_trigger_topic(), [0u8; 32]);
}

#[test]
fn artist_scenario_hello_world() {
    let t = trigger_for(TriggerKind::ContractEvent, 42, &encode_prompt("hello"));
    let request = artist_request(&t).unwrap();
    assert_eq!(request.trigger_id, 42);
    assert_eq!(request.prompt, "hello");
    let description = chat_outcome(200, ChatReply::Message("world".to_string())).unwrap();
    let out = artist_response(request.trigger_id, &request.prompt, &description).unwrap();
    let envelope = decode_trigger(&out).unwrap();
    assert_eq!(envelope.trigger_id, 42);
    let uri = decode_string(&envelope.data).unwrap();
    let b64 = uri.strip_prefix("data:application/json;base64,").unwrap();
    let json = base64::engine::general_purpose::STANDARD.decode(b64).unwrap();
    let value: serde_json::Value = serde_json::from_slice(&json).unwrap();
    assert_eq!(value["description"], "world");
    assert_eq!(value["name"], "AI Generated NFT");
    assert_eq!(value["attributes"][0]["trait_type"], "Prompt");
    assert_eq!(value["attributes"][0]["value"], "hello");
}

#[test]
fn oracle_scenario_resolves_true() {
    let t = trigger_for(TriggerKind::EvmContractEvent, 7, b"");
    let price = 2.5f64;
    let result = price > 1.0;
    let out = oracle_response(&t, address(1), address(2), result).unwrap();
    let envelope = decode_trigger(&out).unwrap();
    assert_eq!(envelope.trigger_id, 7);
    let record = decode_oracle_output(&envelope.data).unwrap();
    assert_eq!(record.lmsr_market_maker, address(1));
    assert_eq!(record.conditional_tokens, address(2));
    assert!(record.result);
    assert_eq!(out, encode_trigger_output(7, address(1), address(2), true));
}

#[test]
fn non_200_status_fails_computation() {
    match chat_outcome(503, ChatReply::Message("ignored".to_string())) {
        Err(CodecError::ComputationFailed(m)) => {
            assert!(m.contains("503"));
            assert_eq!(m, "Ollama API error: status 503");
        }
        _ => panic!("expected a computation failure"),
    }
    match check_status(404) {
        Err(CodecError::ComputationFailed(m)) => assert_eq!(m, "API error: status 404"),
        _ => panic!("expected a computation failure"),
    }
    assert!(check_status(200).is_ok());
}

#[test]
fn chat_errors_are_computation_failures() {
    match chat_outcome(200, ChatReply::Error("model not found".to_string())) {
        Err(CodecError::ComputationFailed(m)) => assert_eq!(m, "model not found"),
        _ => panic!("expected a computation failure"),
    }
    match chat_outcome(200, ChatReply::Unparseable("bad body".to_string())) {
        Err(CodecError::ComputationFailed(m)) => assert_eq!(m, "bad body"),
        _ => panic!("expected a computation failure"),
    }
}

#[test]
fn decimal_digits() {
    assert_eq!(decimal(0), "0");
    assert_eq!(decimal(7), "7");
    assert_eq!(decimal(200), "200");
    assert_eq!(decimal(u64::MAX), "18446744073709551615");
}

#[test]
fn metadata_json_is_compact_and_escaped() {
    let m = artist_metadata("say \"hi\"", "line\nbreak");
    let json = to_json(&m).unwrap();
    assert_eq!(
        json,
        "{\"name\":\"AI Generated NFT\",\"description\":\"line\\nbreak\",\"image\":\"ipfs://placeholder\",\"attributes\":[{\"trait_type\":\"Prompt\",\"value\":\"say \\\"hi\\\"\"}]}"
    );
}

#[test]
fn metadata_json_several_attributes() {
    let m = NftMetadata {
        name: "n".to_string(),
        description: "d".to_string(),
        image: "i".to_string(),
        attributes: vec![
            Attribute { trait_type: "a".to_string(), value: "1".to_string() },
            Attribute { trait_type: "b".to_string(), value: "2".to_string() },
        ],
    };
    assert_eq!(
        to_json(&m).unwrap(),
        "{\"name\":\"n\",\"description\":\"d\",\"image\":\"i\",\"attributes\":[{\"trait_type\":\"a\",\"value\":\"1\"},{\"trait_type\":\"b\",\"value\":\"2\"}]}"
    );
    let empty = NftMetadata { attributes: vec![], ..m };
    assert_eq!(to_json(&empty).unwrap(), "{\"name\":\"n\",\"description\":\"d\",\"image\":\"i\",\"attributes\":[]}");
}

#[test]
fn data_uri_is_base64() {
    assert_eq!(to_data_uri("{}"), "data:application/json;base64,e30=");
    assert_eq!(to_data_uri(""), "data:application/json;base64,");
}

#[test]
fn metadata_response_envelope() {
    let out = encode_metadata_response(3, "{}");
    let envelope = decode_trigger(&out).unwrap();
    assert_eq!(envelope.trigger_id, 3);
    assert_eq!(decode_string(&envelope.data).unwrap(), "data:application/json;base64,e30=");
}

#[test]
fn coin_bites_video_default() {
    let v = CoinBitesVideo::default();
    assert_eq!(v.id, "");
    assert_eq!(v.clone(), v);
}

#[test]
fn oracle_response_refuses_other_triggers() {
    let t = trigger_for(TriggerKind::Other, 7, b"");
    assert!(matches!(
        oracle_response(&t, address(1), address(2), true),
        Err(CodecError::UnsupportedTriggerKind)
    ));
    let mut bad = trigger_for(TriggerKind::EvmContractEvent, 7, b"");
    bad.log.data.truncate(40);
    assert!(matches!(
        oracle_response(&bad, address(1), address(2), true),
        Err(CodecError::MalformedTriggerEnvelope)
    ));
}

#[test]
fn artist_request_with_bad_prompt_is_malformed_payload() {
    let t = trigger_for(TriggerKind::ContractEvent, 5, &[1, 2, 3]);
    assert!(matches!(artist_request(&t), Err(CodecError::MalformedPayload)));
}

#[test]
fn oracle_input_malformed() {
    assert!(matches!(decode_oracle_input(&[0u8; 63]), Err(CodecError::MalformedPayload)));
    let mut b = vec![0u8; 64];
    b[32] = 1;
    assert!(matches!(decode_oracle_input(&b), Err(CodecError::MalformedPayload)));
    b[32] = 0;
    b[63] = 2;
    assert_eq!(decode_oracle_input(&b).unwrap().conditional_tokens, address(2));
}

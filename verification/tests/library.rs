use api_iota_streams::{
    frame_json_text, author_schema, channel_matches, decode_masked_payload, decode_state, encode_state,
    encoding_fits_usize, extract_payload_texts, fetch_all_values, parse_payload_values,
    payload_from_json_text, prepare_payload, randomSeed, seed_from_indices, tangle_link, Address,
    Author, AuthorSchema, FetchAllQuery, FetchError, MessageContent, PayloadError, PublishError,
    StateError,
};

fn address(app_inst: &str, msg_id: &str) -> Address {
    Address { appInst: app_inst.to_string(), msgId: msg_id.to_string() }
}

fn json(text: &str) -> serde_json::Value {
    serde_json::from_str(text).unwrap()
}

fn signed(json: &str) -> MessageContent {
    MessageContent::SignedPacket { masked_payload: payload_from_json_text(json) }
}

#[test]
fn link_joins_app_inst_and_msg_id_with_a_colon() {
    let a = address("0123abcd", "ff00");
    assert_eq!(tangle_link(&a), "0123abcd:ff00");
    assert_eq!(tangle_link(&address("", "")), ":");
}

#[test]
fn channel_matches_only_the_announced_app_inst() {
    let a = address("aa", "bb");
    assert!(channel_matches(&Some("aa".to_string()), &a));
    assert!(!channel_matches(&Some("bb".to_string()), &a));
    assert!(!channel_matches(&None, &a));
}

#[test]
fn seed_spells_hex_digits_at_the_drawn_positions() {
    assert_eq!(seed_from_indices(&vec![0, 15, 10, 9]), "0fa9");
    assert_eq!(seed_from_indices(&vec![]), "");
}

#[test]
fn random_seed_has_the_asked_length_in_hex_digits() {
    for len in [0usize, 1, 12, 64] {
        let seed = randomSeed(len);
        assert_eq!(seed.chars().count(), len);
        assert!(seed.chars().all(|c| "0123456789abcdef".contains(c)));
    }
}

#[test]
fn state_is_url_safe_unpadded_base64() {
    assert_eq!(encode_state(b"hello"), "aGVsbG8");
    assert_eq!(encode_state(&[0xfb, 0xff]), "-_8");
    assert_eq!(encode_state(&[]), "");
}

#[test]
fn state_decodes_back_to_the_exported_bytes() {
    let exported: Vec<u8> = (0u8..=255).collect();
    let state = encode_state(&exported);
    assert_eq!(decode_state(&state), Ok(exported));
    assert_eq!(decode_state("aGVsbG8"), Ok(b"hello".to_vec()));
}

#[test]
fn state_that_is_not_base64_is_refused() {
    assert_eq!(decode_state("a"), Err(StateError::NotBase64));
    assert_eq!(decode_state("a*b="), Err(StateError::NotBase64));
    assert_eq!(decode_state("+/+/"), Err(StateError::NotBase64));
}

#[test]
fn encoded_length_fits_for_ordinary_sizes() {
    assert!(encoding_fits_usize(0));
    assert!(encoding_fits_usize(1 << 20));
    assert!(!encoding_fits_usize(usize::MAX));
    assert!(!encoding_fits_usize(usize::MAX / 4 * 3 + 3));
}

#[test]
fn payload_frames_json_text_as_base64_bytes() {
    assert_eq!(payload_from_json_text("{\"a\":1}"), b"eyJhIjoxfQ".to_vec());
    assert_eq!(payload_from_json_text(""), Vec::<u8>::new());
}

#[test]
fn prepare_payload_normalizes_a_json_object() {
    assert_eq!(prepare_payload(b"{ \"a\" :  1 }\n"), Ok(b"eyJhIjoxfQ".to_vec()));
}

#[test]
fn prepare_payload_refuses_what_is_not_a_json_object() {
    assert_eq!(prepare_payload(&[0xff, 0xfe]), Err(PublishError::NotUtf8));
    assert_eq!(prepare_payload(b"[1,2]"), Err(PublishError::NotJsonObject));
    assert_eq!(prepare_payload(b"not json"), Err(PublishError::NotJsonObject));
    assert_eq!(prepare_payload(b""), Err(PublishError::NotJsonObject));
}

#[test]
fn masked_payload_decodes_to_its_text() {
    assert_eq!(decode_masked_payload(b"eyJhIjoxfQ"), Ok("{\"a\":1}".to_string()));
    assert_eq!(decode_masked_payload(b""), Ok(String::new()));
}

#[test]
fn masked_payload_errors() {
    assert_eq!(decode_masked_payload(&[0xff]), Err(PayloadError::NotUtf8));
    assert_eq!(decode_masked_payload(b"!!!!"), Err(PayloadError::NotBase64));
    // "_w" is the unpadded URL-safe Base64 text of the single byte 0xff.
    assert_eq!(decode_masked_payload(b"_w"), Err(PayloadError::DecodedNotUtf8));
}

#[test]
fn published_payload_reads_back_as_the_same_text() {
    for text in ["{}", "{\"message\":\"héllo wörld\",\"n\":[1,2,3]}", "plain text", ""] {
        let payload = payload_from_json_text(text);
        assert_eq!(decode_masked_payload(&payload), Ok(text.to_string()));
    }
    let payload = prepare_payload(b"{\"k\": \"v\"}").unwrap();
    assert_eq!(decode_masked_payload(&payload), Ok("{\"k\":\"v\"}".to_string()));
}

#[test]
fn extract_keeps_non_empty_signed_texts_in_order() {
    let msgs = vec![
        signed("{\"a\":1}"),
        MessageContent::Other,
        signed(""),
        signed("{\"b\":2}"),
    ];
    assert_eq!(
        extract_payload_texts(&msgs),
        Ok(vec!["{\"a\":1}".to_string(), "{\"b\":2}".to_string()])
    );
    assert_eq!(extract_payload_texts(&vec![]), Ok(vec![]));
}

#[test]
fn extract_stops_at_the_first_undecodable_payload() {
    let msgs = vec![
        signed("{}"),
        MessageContent::SignedPacket { masked_payload: b"!!!!".to_vec() },
        MessageContent::SignedPacket { masked_payload: vec![0xff] },
    ];
    assert_eq!(
        extract_payload_texts(&msgs),
        Err(FetchError::Undecodable { index: 1, error: PayloadError::NotBase64 })
    );
}

#[test]
fn parse_values_reports_the_first_text_that_is_not_json() {
    let texts = vec!["{}".to_string(), "1".to_string(), "nope".to_string(), "[".to_string()];
    assert_eq!(parse_payload_values(&texts).unwrap_err(), FetchError::NotJson { index: 2 });
    let values = parse_payload_values(&vec!["{\"a\":1}".to_string(), "true".to_string()]).unwrap();
    assert_eq!(values.len(), 2);
    assert_eq!(values[0], json("{\"a\":1}"));
}

#[test]
fn fetch_all_values_parses_what_was_published() {
    let first = prepare_payload(b"{\"temperature\": 21}").unwrap();
    let second = prepare_payload(b"{\"tags\": [\"a\", \"b\"]}").unwrap();
    let msgs = vec![
        MessageContent::SignedPacket { masked_payload: first },
        MessageContent::Other,
        MessageContent::SignedPacket { masked_payload: second },
    ];
    let values = fetch_all_values(&msgs).unwrap();
    assert_eq!(values, vec![json("{\"temperature\":21}"), json("{\"tags\":[\"a\",\"b\"]}")]);
}

#[test]
fn fetch_all_values_errors() {
    let msgs = vec![signed("{}"), signed("not json")];
    assert_eq!(fetch_all_values(&msgs).unwrap_err(), FetchError::NotJson { index: 1 });
    let msgs = vec![MessageContent::Other, MessageContent::SignedPacket { masked_payload: vec![0xff] }];
    assert_eq!(
        fetch_all_values(&msgs).unwrap_err(),
        FetchError::Undecodable { index: 1, error: PayloadError::NotUtf8 }
    );
    assert_eq!(fetch_all_values(&vec![MessageContent::Other]).unwrap().len(), 0);
}

#[test]
fn author_schema_carries_the_encoded_state() {
    let record = author_schema(address("app", "msg"), "pw".to_string(), b"hello", "seed".to_string());
    assert_eq!(
        record,
        AuthorSchema {
            seed: "seed".to_string(),
            address: address("app", "msg"),
            author: Author { password: "pw".to_string(), state: "aGVsbG8".to_string() },
        }
    );
    assert_eq!(decode_state(&record.author.state), Ok(b"hello".to_vec()));
}

#[test]
fn fetch_query_holds_an_address() {
    let q = FetchAllQuery { address: address("x", "y") };
    assert_eq!(tangle_link(&q.address), "x:y");
}


#[test]
fn frame_json_text_frames_the_written_text() {
    assert_eq!(frame_json_text("{\"a\":1}"), Ok(b"eyJhIjoxfQ".to_vec()));
    assert_eq!(frame_json_text("{}"), Ok(b"e30".to_vec()));
}

#[test]
fn state_uses_only_the_url_safe_alphabet() {
    let exported: Vec<u8> = (0u8..=255).rev().collect();
    let state = encode_state(&exported);
    assert_eq!(state.len(), 4 * (256 / 3) + 2);
    assert!(state
        .chars()
        .all(|c| c.is_ascii_alphanumeric() || c == '-' || c == '_'));
    assert!(!state.contains('='));
}

#[test]
fn fetched_values_are_the_parsed_texts_in_order() {
    let msgs = vec![signed("{\"b\":2}"), MessageContent::Other, signed("[1,2]"), signed("\"s\"")];
    let values = fetch_all_values(&msgs).unwrap();
    assert_eq!(values, vec![json("{\"b\":2}"), json("[1,2]"), json("\"s\"")]);
}

#[test]
fn skipped_messages_do_not_stop_a_fetch() {
    let msgs = vec![MessageContent::Other, signed("")];
    assert_eq!(extract_payload_texts(&msgs), Ok(vec![]));
    assert_eq!(fetch_all_values(&msgs).unwrap().len(), 0);
    let msgs = vec![MessageContent::Other, signed(""), signed("{\"c\":3}"), MessageContent::Other];
    assert_eq!(fetch_all_values(&msgs).unwrap(), vec![json("{\"c\":3}")]);
}

#[test]
fn rewritten_object_can_read_back_as_a_different_number() {
    // serde_json's default number parser is not correctly rounded, so the
    // text it writes back for a parsed float can parse to a neighbouring one.
    let body = "{\"x\":1.0715660391465826e-75}";
    let payload = prepare_payload(body.as_bytes()).unwrap();
    let msgs = vec![MessageContent::SignedPacket { masked_payload: payload }];
    let values = fetch_all_values(&msgs).unwrap();
    assert_ne!(values[0], json(body));
}

//! Tests for the streaming GeoJSON decoder.

use geoetl::decoder::{GeoJsonDecoder, SkipResult};
use geoetl::model::ParserState;

#[test]
fn test_find_features_array_start() {
    let json = br#"{"type":"FeatureCollection","features":["#;
    let mut decoder = GeoJsonDecoder::new("test".to_string());
    decoder.buffer.extend_from_slice(json);

    let pos = decoder.find_features_array_start();
    assert!(pos.is_some());
}

#[test]
fn test_find_features_array_start_with_whitespace() {
    let json = br#"{"type":"FeatureCollection", "features" : [ "#;
    let mut decoder = GeoJsonDecoder::new("test".to_string());
    decoder.buffer.extend_from_slice(json);

    let pos = decoder.find_features_array_start();
    assert!(pos.is_some());
}

#[test]
fn test_find_features_array_start_offsets() {
    // The offset returned is just past the opening bracket.
    let compact = br#"{"type":"FeatureCollection","features":["#;
    let mut decoder = GeoJsonDecoder::new("test".to_string());
    decoder.buffer.extend_from_slice(compact);
    assert_eq!(decoder.find_features_array_start(), Some(compact.len()));

    let spaced = br#"{"type":"FeatureCollection", "features" : [ "#;
    let mut decoder = GeoJsonDecoder::new("test".to_string());
    decoder.buffer.extend_from_slice(spaced);
    // The trailing space after '[' is not consumed.
    assert_eq!(decoder.find_features_array_start(), Some(spaced.len() - 1));
}

#[test]
fn test_find_features_array_start_incomplete() {
    let mut decoder = GeoJsonDecoder::new("test".to_string());
    decoder.buffer.extend_from_slice(br#"{"type":"FeatureCollection","features" "#);
    assert!(decoder.find_features_array_start().is_none());
}

#[test]
fn test_extract_simple_json_object() {
    let text = br#"{"a":1}"#;

    let result = GeoJsonDecoder::extract_json_object(text);
    assert_eq!(result, Some((&text[..], 7)));
}

#[test]
fn test_extract_nested_json_object() {
    let text = br#"{"a":{"b":2}}"#;

    let result = GeoJsonDecoder::extract_json_object(text);
    assert_eq!(result, Some((&text[..], 13)));
}

#[test]
fn test_extract_incomplete_json_object() {
    let text = br#"{"a":1"#;

    let result = GeoJsonDecoder::extract_json_object(text);
    assert_eq!(result, None);
}

#[test]
fn test_extract_ignores_braces_in_strings() {
    let text = br#"{"a":"}{","b":"\"}"}"#;
    let result = GeoJsonDecoder::extract_json_object(text);
    assert_eq!(result, Some((&text[..], text.len())));
}

#[test]
fn test_extract_every_prefix_incomplete() {
    // Any truncation of a well-formed object is reported incomplete,
    // never answered with a wrong end.
    let text = br#"{"a":{"b":"x}y"},"c":[1,2]}"#;
    for cut in 0..text.len() {
        assert_eq!(GeoJsonDecoder::extract_json_object(&text[..cut]), None);
    }
    assert!(GeoJsonDecoder::extract_json_object(text).is_some());
}

#[test]
fn test_extract_stray_close_brace() {
    // A stray unmatched '}' before any object drives the depth negative;
    // the later balanced close then never returns it to zero, so no
    // completion is reported: "not found", not a panic and not a wrong span.
    let text = br#"}{"a":1}"#;
    let result = GeoJsonDecoder::extract_json_object(text);
    assert_eq!(result, None);
}

#[test]
fn test_decode_complete_feature_collection() {
    let mut decoder = GeoJsonDecoder::new("test".to_string());

    let json = br#"{"type":"FeatureCollection","features":[{"type":"Feature","geometry":{"type":"Point","coordinates":[1.0,2.0]},"properties":{"name":"test"}}]}"#;

    let features = decoder.decode(&json[..]).unwrap();
    assert_eq!(features.len(), 1);
    assert_eq!(
        features[0].properties.get("name").and_then(|v| v.as_str()),
        Some("test")
    );
}

#[test]
fn test_decode_multiple_features() {
    let mut decoder = GeoJsonDecoder::new("test".to_string());

    let json = br#"{"type":"FeatureCollection","features":[
            {"type":"Feature","geometry":{"type":"Point","coordinates":[1.0,2.0]},"properties":{"id":1}},
            {"type":"Feature","geometry":{"type":"Point","coordinates":[3.0,4.0]},"properties":{"id":2}}
        ]}"#;

    let features = decoder.decode(&json[..]).unwrap();
    assert_eq!(features.len(), 2);
}

#[test]
fn test_decode_incremental() {
    let mut decoder = GeoJsonDecoder::new("test".to_string());

    let part1 = br#"{"type":"FeatureCollection","features":[{"type":"Feature","#;
    let part2 = br#""geometry":{"type":"Point","coordinates":[1.0,2.0]},"#;
    let part3 = br#""properties":{"name":"test"}}]}"#;

    let features1 = decoder.decode(&part1[..]).unwrap();
    assert_eq!(features1.len(), 0);

    let features2 = decoder.decode(&part2[..]).unwrap();
    assert_eq!(features2.len(), 0);

    let features3 = decoder.decode(&part3[..]).unwrap();
    assert_eq!(features3.len(), 1);
}

#[test]
fn test_decode_single_chunk_scenario() {
    // One chunk in, exactly one record out, with its property and a present
    // point geometry.
    let json = br#"{"type":"FeatureCollection","features":[{"type":"Feature","geometry":{"type":"Point","coordinates":[1.0,2.0]},"properties":{"name":"test"}}]}"#;
    let mut decoder = GeoJsonDecoder::new("one".to_string());
    let features = decoder.decode(&json[..]).unwrap();
    assert_eq!(features.len(), 1);
    assert_eq!(
        features[0].properties.get("name").and_then(|v| v.as_str()),
        Some("test")
    );
    assert!(features[0].geometry.is_some());
    let finished = decoder.finish().unwrap();
    assert_eq!(finished.len(), 0);
}

#[test]
fn test_decode_three_chunks_scenario() {
    // The same document cut at arbitrary offsets, including mid-key and
    // mid-number, yields the identical single record and nothing early.
    let json = br#"{"type":"FeatureCollection","features":[{"type":"Feature","geometry":{"type":"Point","coordinates":[1.0,2.0]},"properties":{"name":"test"}}]}"#;
    let cuts = (47, 101);
    let mut decoder = GeoJsonDecoder::new("three".to_string());
    let f1 = decoder.decode(&json[..cuts.0]).unwrap();
    assert_eq!(f1.len(), 0);
    let f2 = decoder.decode(&json[cuts.0..cuts.1]).unwrap();
    assert_eq!(f2.len(), 0);
    let f3 = decoder.decode(&json[cuts.1..]).unwrap();
    assert_eq!(f3.len(), 1);
    assert_eq!(
        f3[0].properties.get("name").and_then(|v| v.as_str()),
        Some("test")
    );
    assert!(f3[0].geometry.is_some());
}

#[test]
fn test_decode_byte_by_byte_matches_one_shot() {
    // Chunking idempotence on concrete input: single-byte chunks yield the
    // same ordered records as one chunk.
    let json = br#"{"type":"FeatureCollection","features":[
        {"type":"Feature","geometry":{"type":"Point","coordinates":[1.0,2.0]},"properties":{"id":1}},
        {"type":"Feature","geometry":null,"properties":{"id":2}},
        {"type":"Feature","geometry":{"type":"Point","coordinates":[5.5,6.5]},"properties":{"id":3}}
    ]}"#;

    let mut one_shot = GeoJsonDecoder::new("whole".to_string());
    let mut expected = one_shot.decode(&json[..]).unwrap();
    expected.extend(one_shot.finish().unwrap());

    let mut chunked = GeoJsonDecoder::new("bytes".to_string());
    let mut got = Vec::new();
    for b in json.iter() {
        got.extend(chunked.decode(std::slice::from_ref(b)).unwrap());
    }
    got.extend(chunked.finish().unwrap());

    assert_eq!(expected.len(), 3);
    assert_eq!(got.len(), expected.len());
    for (g, e) in got.iter().zip(expected.iter()) {
        assert_eq!(g.raw, e.raw);
        assert_eq!(g.properties, e.properties);
    }
}

#[test]
fn test_decode_multibyte_text_chunked() {
    // Property values with multi-byte characters, fed in chunks cut at
    // character boundaries.
    let json = format!(
        r#"{{"type":"FeatureCollection","features":[{{"type":"Feature","geometry":null,"properties":{{"name":"{}"}}}}]}}"#,
        "caf\u{e9} \u{4e16}\u{754c}"
    );
    let bytes = json.as_bytes();
    let mut decoder = GeoJsonDecoder::new("utf8".to_string());
    let mut got = Vec::new();
    let mut start = 0;
    while start < bytes.len() {
        let mut end = (start + 7).min(bytes.len());
        while !json.is_char_boundary(end) {
            end += 1;
        }
        got.extend(decoder.decode(&bytes[start..end]).unwrap());
        start = end;
    }
    assert_eq!(got.len(), 1);
    let name = got[0].properties.get("name").and_then(|v| v.as_str()).unwrap();
    assert_eq!(name, "caf\u{e9} \u{4e16}\u{754c}");
}

#[test]
fn test_decode_split_mid_codepoint_recovers() {
    // A chunk boundary through the middle of a multi-byte character: the
    // decoder stalls on the torn buffer and recovers when the rest arrives,
    // yielding the same single record.
    let json = format!(
        r#"{{"type":"FeatureCollection","features":[{{"type":"Feature","geometry":null,"properties":{{"name":"{}"}}}}]}}"#,
        "a\u{e9}b"
    );
    let bytes = json.as_bytes();
    // find the two-byte character and cut between its bytes
    let pos = bytes.iter().position(|b| *b >= 0x80).unwrap();
    let cut = pos + 1;
    assert!(!json.is_char_boundary(cut));
    let mut decoder = GeoJsonDecoder::new("torn".to_string());
    let first = decoder.decode(&bytes[..cut]).unwrap();
    assert_eq!(first.len(), 0);
    let second = decoder.decode(&bytes[cut..]).unwrap();
    assert_eq!(second.len(), 1);
    assert_eq!(
        second[0].properties.get("name").and_then(|v| v.as_str()),
        Some("a\u{e9}b")
    );
}

#[test]
fn test_decode_empty_feature_collection() {
    // An empty array: zero records, and the decoder reaches its terminal
    // state without error.
    let json = br#"{"type":"FeatureCollection","features":[]}"#;
    let mut decoder = GeoJsonDecoder::new("empty".to_string());
    let features = decoder.decode(&json[..]).unwrap();
    assert_eq!(features.len(), 0);
    assert!(matches!(decoder.state, ParserState::Done));
    let finished = decoder.finish().unwrap();
    assert_eq!(finished.len(), 0);
}

#[test]
fn test_decode_never_closed_object() {
    // `{"a":1` never closes: the extractor reports incomplete for every
    // prefix, and finalizing a stuck decoder yields nothing.
    let fragment = br#"{"a":1"#;
    for cut in 0..=fragment.len() {
        assert_eq!(GeoJsonDecoder::extract_json_object(&fragment[..cut]), None);
    }
    let mut decoder = GeoJsonDecoder::new("stuck".to_string());
    let header = br#"{"type":"FeatureCollection","features":["#;
    assert_eq!(decoder.decode(&header[..]).unwrap().len(), 0);
    assert_eq!(decoder.decode(&fragment[..]).unwrap().len(), 0);
    assert!(matches!(decoder.state, ParserState::ExpectingFeature));
    let finished = decoder.finish().unwrap();
    assert_eq!(finished.len(), 0);
}

#[test]
fn test_decode_header_cap_enforced() {
    // More than the cap of bytes without any "features" key: a header
    // error, not indefinite buffering.
    let mut decoder = GeoJsonDecoder::new("capped".to_string());
    let filler = vec![0x20u8; 1024 * 1024 + 1];
    let result = decoder.decode(&filler);
    assert!(result.is_err());
    let message = result.unwrap_err().display_string();
    assert!(message.contains("Could not find FeatureCollection header"));
}

#[test]
fn test_decode_counts_features() {
    let json = br#"{"type":"FeatureCollection","features":[
        {"type":"Feature","geometry":null,"properties":{"id":1}},
        {"type":"Feature","geometry":null,"properties":{"id":2}}
    ]}"#;
    let mut decoder = GeoJsonDecoder::new("count".to_string());
    decoder.decode(&json[..]).unwrap();
    assert_eq!(decoder.features_decoded, 2);
}

#[test]
fn test_decode_record_raw_is_source_span() {
    // Each record carries the exact feature text it was parsed from.
    let json = br#"{"type":"FeatureCollection","features":[{"type":"Feature","geometry":null,"properties":{"id":7}}]}"#;
    let mut decoder = GeoJsonDecoder::new("raw".to_string());
    let features = decoder.decode(&json[..]).unwrap();
    assert_eq!(features.len(), 1);
    assert_eq!(
        features[0].raw,
        br#"{"type":"Feature","geometry":null,"properties":{"id":7}}"#.to_vec()
    );
}

#[test]
fn test_skip_to_next_feature_comma_and_close() {
    let mut decoder = GeoJsonDecoder::new("skip".to_string());
    decoder.buffer.extend_from_slice(b"  ,");
    assert_eq!(decoder.skip_to_next_feature(), SkipResult::Comma(3));
    decoder.buffer.clear();
    decoder.buffer.extend_from_slice(b" ]");
    assert_eq!(decoder.skip_to_next_feature(), SkipResult::Close(2));
    decoder.buffer.clear();
    decoder.buffer.extend_from_slice(b"   ");
    assert_eq!(decoder.skip_to_next_feature(), SkipResult::NeedMore);
    decoder.buffer.clear();
    decoder.buffer.extend_from_slice(b"x");
    assert_eq!(decoder.skip_to_next_feature(), SkipResult::NeedMore);
}

#[test]
fn test_decode_malformed_feature_under_cap_waits() {
    // A complete object that is not a Feature, with a small buffer: the
    // decoder keeps waiting rather than failing.
    let mut decoder = GeoJsonDecoder::new("waits".to_string());
    let json = br#"{"type":"FeatureCollection","features":[{"type":"NotAFeature"}"#;
    let features = decoder.decode(&json[..]).unwrap();
    assert_eq!(features.len(), 0);
    assert!(matches!(decoder.state, ParserState::ExpectingFeature));
}

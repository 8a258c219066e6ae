//! Tests for the strict, sequence and truncation-recovery parsers.

use geoetl::parser::{
    fix_truncated_geojson, parse_geojson_bytes, parse_geojson_bytes_partial,
};
use geoetl::shared::SpatialFormatReadError;

#[test]
fn parse_feature_collection() {
    let data = br#"{
  "type": "FeatureCollection",
  "features": [
    {"type":"Feature","geometry":{"type":"Point","coordinates":[1.0,2.0]},"properties":{"name":"A"}},
    {"type":"Feature","geometry":null,"properties":{"value":42}}
  ]
}"#;

    let records = parse_geojson_bytes(data, None, "test").expect("parse");
    assert_eq!(records.len(), 2);
    assert!(records[0].geometry.is_some());
    assert_eq!(records[0].properties.get("name").unwrap(), "A");
    assert!(records[1].geometry.is_none());
    assert_eq!(records[1].properties.get("value").unwrap(), 42);
}

#[test]
fn parse_feature_collection_with_limit() {
    let data = br#"{
  "type": "FeatureCollection",
  "features": [
    {"type":"Feature","geometry":{"type":"Point","coordinates":[1,2]},"properties":{"id":1}},
    {"type":"Feature","geometry":{"type":"Point","coordinates":[3,4]},"properties":{"id":2}},
    {"type":"Feature","geometry":{"type":"Point","coordinates":[5,6]},"properties":{"id":3}}
  ]
}"#;

    let records = parse_geojson_bytes(data, Some(2), "test").expect("parse");
    assert_eq!(records.len(), 2);
}

#[test]
fn parse_single_feature() {
    let data = br#"{"type":"Feature","geometry":{"type":"Point","coordinates":[5.0,10.0]},"properties":{"city":"NYC"}}"#;

    let records = parse_geojson_bytes(data, None, "test").expect("parse");
    assert_eq!(records.len(), 1);
    assert!(records[0].geometry.is_some());
    assert_eq!(records[0].properties.get("city").unwrap(), "NYC");
}

#[test]
fn parse_single_feature_without_properties() {
    let data = br#"{"type":"Feature","geometry":{"type":"Point","coordinates":[0,0]}}"#;

    let records = parse_geojson_bytes(data, None, "test").expect("parse");
    assert_eq!(records.len(), 1);
    assert!(records[0].geometry.is_some());
    assert!(records[0].properties.is_empty());
}

#[test]
fn parse_single_geometry() {
    let data = br#"{"type":"Point","coordinates":[7.0,8.0]}"#;

    let records = parse_geojson_bytes(data, None, "test").expect("parse");
    assert_eq!(records.len(), 1);
    assert!(records[0].geometry.is_some());
    assert!(records[0].properties.is_empty());
}

#[test]
fn parse_sequence() {
    let data = br#"{"type":"Feature","geometry":{"type":"Point","coordinates":[0,0]},"properties":{"id":1}}
{"type":"Feature","geometry":{"type":"Point","coordinates":[1,1]},"properties":{"id":2}}"#;

    let records = parse_geojson_bytes(data, Some(1), "seq").expect("sequence");
    assert_eq!(records.len(), 1);
}

#[test]
fn parse_sequence_with_empty_lines() {
    let data = br#"{"type":"Feature","geometry":{"type":"Point","coordinates":[0,0]},"properties":{"id":1}}

{"type":"Feature","geometry":{"type":"Point","coordinates":[1,1]},"properties":{"id":2}}
"#;

    let records = parse_geojson_bytes(data, None, "seq").expect("sequence");
    assert_eq!(records.len(), 2);
}

#[test]
fn parse_sequence_reaches_limit() {
    let data = br#"{"type":"Feature","geometry":{"type":"Point","coordinates":[0,0]},"properties":{"id":1}}
{"type":"Feature","geometry":{"type":"Point","coordinates":[1,1]},"properties":{"id":2}}
{"type":"Feature","geometry":{"type":"Point","coordinates":[2,2]},"properties":{"id":3}}"#;

    let records = parse_geojson_bytes(data, Some(2), "seq").expect("sequence");
    assert_eq!(records.len(), 2);
}

#[test]
fn parse_sequence_with_geometry_collection() {
    let data = br#"{"type":"FeatureCollection","features":[{"type":"Feature","geometry":{"type":"Point","coordinates":[0,0]},"properties":{"id":1}}]}
{"type":"FeatureCollection","features":[{"type":"Feature","geometry":{"type":"Point","coordinates":[1,1]},"properties":{"id":2}}]}"#;

    let records = parse_geojson_bytes(data, None, "seq").expect("sequence");
    assert_eq!(records.len(), 2);
}

#[test]
fn parse_empty_sequence_fails() {
    let data = b"\n\n\n";

    let err = parse_geojson_bytes(data, None, "empty").unwrap_err();
    match err {
        SpatialFormatReadError::Parse { message, .. } => {
            assert!(message.contains("No GeoJSON features found"));
        },
        _ => panic!("Expected Parse error"),
    }
}

#[test]
fn parse_invalid_utf8_in_sequence() {
    let mut data = Vec::from(&b"{"[..]);
    data.push(0xFF);
    data.extend_from_slice(b"}");

    let err = parse_geojson_bytes(&data, None, "bad_utf8").unwrap_err();
    match err {
        SpatialFormatReadError::Parse { message, .. } => {
            assert!(message.contains("not valid UTF-8"));
        },
        _ => panic!("Expected Parse error"),
    }
}

#[test]
fn parse_invalid_geojson_sequence_line() {
    let data = br#"{"type":"Feature","geometry":{"type":"Point","coordinates":[0,0]},"properties":{"id":1}}
not valid json"#;

    let err = parse_geojson_bytes(data, None, "bad_json").unwrap_err();
    match err {
        SpatialFormatReadError::Parse { message, .. } => {
            assert!(message.contains("Failed to parse GeoJSON feature"));
        },
        _ => panic!("Expected Parse error"),
    }
}

#[test]
fn parse_invalid_json_combines_errors() {
    let data = b"not valid json at all";

    let err = parse_geojson_bytes(data, None, "invalid").unwrap_err();
    match err {
        SpatialFormatReadError::Parse {
            message, context, ..
        } => {
            assert!(message.contains("Failed to parse GeoJSON as FeatureCollection"));
            assert!(message.contains("also failed to parse as GeoJSON sequence"));
            assert_eq!(context.as_deref(), Some("invalid"));
        },
        _ => panic!("Expected Parse error"),
    }
}

#[test]
fn partial_returns_strict_result_when_whole() {
    let data = br#"{"type":"FeatureCollection","features":[
        {"type":"Feature","geometry":null,"properties":{"id":1}}
    ]}"#;
    let records = parse_geojson_bytes_partial(data, None, "whole").expect("partial");
    assert_eq!(records.len(), 1);
}

#[test]
fn partial_recovers_truncated_collection() {
    // A pretty-printed collection cut off right after the first feature's
    // "} }," boundary: exactly the first feature survives.
    let full = br#"{ "type": "FeatureCollection", "features": [
{ "type": "Feature", "properties": { "id": 1 }, "geometry": { "type": "Point", "coordinates": [ 1.0, 2.0 ] } },
{ "type": "Feature", "properties": { "id": 2 }, "geometry": { "type": "Point", "coor"#;

    let records = parse_geojson_bytes_partial(full, None, "trunc").expect("repair");
    assert_eq!(records.len(), 1);
    assert_eq!(records[0].properties.get("id").unwrap(), 1);
}

#[test]
fn partial_respects_limit() {
    let full = br#"{ "type": "FeatureCollection", "features": [
{ "type": "Feature", "properties": { "id": 1 }, "geometry": { "type": "Point", "coordinates": [ 0.0, 0.0 ] } },
{ "type": "Feature", "properties": { "id": 2 }, "geometry": { "type": "Point", "coordinates": [ 1.0, 1.0 ] } },
{ "type": "Feature", "properties": { "id": 3 }, "geometry": { "type": "Point", "coordinates": [ 2.0, 2.0 ] } },
{ "type": "Feature", "properties": { "id": 4 }, "geometry": { "type": "Point", "coor"#;

    let records = parse_geojson_bytes_partial(full, Some(2), "limited").expect("repair");
    assert_eq!(records.len(), 2);
}

#[test]
fn partial_fails_when_no_boundary() {
    // No "} }," boundary at all: the repair reconstructs an empty
    // collection and reports that no features survived.
    let data = br#"{"type":"FeatureCollection","features":[{"type":"Feature","pro"#;
    let err = parse_geojson_bytes_partial(data, None, "none").unwrap_err();
    match err {
        SpatialFormatReadError::Parse { message, .. } => {
            assert!(message.contains("No valid features found in partial GeoJSON"));
        },
        _ => panic!("Expected Parse error"),
    }
}

#[test]
fn partial_rejects_invalid_utf8() {
    let mut data = Vec::from(&br#"{"type":"FeatureCollection","#[..]);
    data.push(0xC3);

    let err = parse_geojson_bytes_partial(&data, None, "bad").unwrap_err();
    match err {
        SpatialFormatReadError::Parse { message, .. } => {
            assert!(message.contains("Invalid UTF-8"));
        },
        _ => panic!("Expected Parse error"),
    }
}

#[test]
fn fix_truncated_cuts_at_last_boundary() {
    let text = br#"[ { "a": 1 } }, { "b": 2 } }, tail"#;
    let fixed = fix_truncated_geojson(text);
    let expected = br#"[ { "a": 1 } }, { "b": 2 } } ] }"#;
    assert_eq!(fixed, expected.to_vec());
}

#[test]
fn fix_truncated_without_boundary_yields_empty_collection() {
    let fixed = fix_truncated_geojson(b"nothing here");
    assert_eq!(
        fixed,
        br#"{"type":"FeatureCollection","features":[]}"#.to_vec()
    );
}

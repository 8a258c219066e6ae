//! Parsed GeoJSON features and the trusted boundary to the `geojson` and
//! `serde_json` crates.
//!
//! The decoder and the recovery parser slice exact byte spans out of their
//! input; this module turns one such span into a [`FeatureRecord`] by calling
//! the outside parser.  Whether a span parses, and what it parses to, is a
//! function of the bytes alone, named here by [`feature_parses`].

use vstd::prelude::*;

verus! {

#[verifier::external_type_specification]
#[verifier::external_body]
pub struct ExJsonValue(serde_json::Value);

#[verifier::external_type_specification]
#[verifier::external_body]
#[verifier::reject_recursive_types(K)]
#[verifier::reject_recursive_types(V)]
pub struct ExJsonMap<K, V>(serde_json::Map<K, V>);

#[verifier::external_type_specification]
#[verifier::external_body]
pub struct ExGeometry(geojson::Geometry);

#[verifier::external_type_specification]
#[verifier::external_body]
pub struct ExFeature(geojson::Feature);

/// Relies on the `Clone` impl of `serde_json::Map` (a map clone); nothing is
/// assumed of the copy.
pub assume_specification[ <serde_json::Map<String, serde_json::Value> as Clone>::clone ](
    m: &serde_json::Map<String, serde_json::Value>,
) -> serde_json::Map<String, serde_json::Value>;

/// Relies on the derived `Clone` impl of `geojson::Geometry`; nothing is
/// assumed of the copy.
pub assume_specification[ <geojson::Geometry as Clone>::clone ](
    g: &geojson::Geometry,
) -> geojson::Geometry;

/// A parsed GeoJSON feature: its property map, its optional geometry, and the
/// exact source text it was parsed from.  `raw` is empty for records that were
/// not sliced out of a byte stream (those produced by whole-document parsing).
#[derive(Debug, Clone)]
pub struct FeatureRecord {
    /// The feature's `properties` member; empty when the member was absent or null.
    pub properties: serde_json::Map<String, serde_json::Value>,
    /// The feature's `geometry` member, if present and non-null.
    pub geometry: Option<geojson::Geometry>,
    /// The feature's source text, when the record was sliced out of a stream.
    pub raw: Vec<u8>,
}

impl View for FeatureRecord {
    type V = Seq<u8>;

    open spec fn view(&self) -> Seq<u8> {
        self.raw@
    }
}

/// Whether the given bytes parse as a GeoJSON `Feature` object.  The outcome
/// is a function of the bytes alone.
pub uninterp spec fn feature_parses(b: Seq<u8>) -> bool;

/// Relies on `serde_json::from_slice` deserializing `geojson::Feature`:
/// success, the property map and the geometry are functions of the bytes
/// alone, and parsing validates that the bytes are a JSON object carrying
/// `"type": "Feature"`.
#[verifier::external_body]
fn parse_feature_parts(bytes: &[u8]) -> (r: Option<
    (serde_json::Map<String, serde_json::Value>, Option<geojson::Geometry>),
>)
    ensures
        r is Some <==> feature_parses(bytes@),
{
    match serde_json::from_slice::<geojson::Feature>(bytes) {
        Ok(f) => Some((f.properties.unwrap_or_default(), f.geometry)),
        Err(_) => None,
    }
}

/// Parse one feature out of the exact byte span `bytes`.  Succeeds if and only
/// if the span parses as a GeoJSON `Feature`; the returned record then carries
/// the span as its source text.
pub fn feature_record_from_slice(bytes: &[u8]) -> (r: Option<FeatureRecord>)
    ensures
        r is Some <==> feature_parses(bytes@),
        r matches Some(rec) ==> rec@ == bytes@,
{
    match parse_feature_parts(bytes) {
        Some((props, geometry)) => {
            let raw = vstd::slice::slice_to_vec(bytes);
            Some(FeatureRecord { properties: props, geometry, raw })
        },
        None => None,
    }
}

} // verus!

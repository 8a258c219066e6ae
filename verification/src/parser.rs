//! GeoJSON parsing helpers shared across format and execution layers.
//!
//! Two code paths live here.  The strict path parses a whole byte buffer as a
//! GeoJSON document (a `FeatureCollection`, a bare `Feature`, or a bare
//! geometry), falling back to a newline-delimited sequence of documents.  The
//! lenient path, used only for schema inference over a bounded byte window,
//! additionally repairs input that was truncated mid-feature: it cuts the
//! text back to the last complete feature boundary, re-closes the array and
//! object, and then slices and parses the surviving features one by one,
//! silently skipping any that fail.

use vstd::prelude::*;

verus! {

use crate::decoder::{rec_views, GeoJsonDecoder};
use crate::model::header_end;
use crate::record::{feature_parses, feature_record_from_slice, FeatureRecord};
use crate::scan::{
    find_pat, find_pattern, lemma_find_pat, lemma_obj_end_bounds, lemma_ws_count, obj_end,
    rfind_pat, rfind_pattern, scan_init, scan_object_end, skip_json_ws, ws_count,
};
use crate::shared::{
    context_text, position_suffix, SourcePosition, SpatialFormatReadError, error_text,
};
use crate::utf8check::validate_utf8;
use vstd::slice::{slice_subrange, slice_to_vec};
use vstd::string::StringExecFns;
use vstd::utf8::valid_utf8;

/// How many features a whole GeoJSON document holds: `None` when the bytes do
/// not parse as a document at all, `Some(n)` when they parse as a collection
/// of `n` features, or as a bare feature or geometry (`n == 1`).  The outcome
/// is a function of the bytes alone.
pub uninterp spec fn document_records(b: Seq<u8>) -> Option<nat>;

/// Whether the bytes parse as one whole GeoJSON document.
pub open spec fn document_parses(b: Seq<u8>) -> bool {
    document_records(b) is Some
}

/// The three shapes a whole GeoJSON document can take.
pub enum DocKind {
    /// A `FeatureCollection`, holding its features.
    Collection(Vec<geojson::Feature>),
    /// A bare `Feature`.
    Single(geojson::Feature),
    /// A bare geometry.
    Geometry(geojson::Geometry),
}

/// How many feature records a parsed document yields.
pub open spec fn doc_kind_count(k: DocKind) -> nat {
    match k {
        DocKind::Collection(v) => v@.len(),
        DocKind::Single(_) => 1,
        DocKind::Geometry(_) => 1,
    }
}

/// Relies on `serde_json::from_slice` deserializing `geojson::GeoJson`
/// (an untagged `FeatureCollection` / `Feature` / geometry document):
/// success, the document's shape and its feature count are functions of the
/// bytes alone; the error carries the parser's rendered message.
#[verifier::external_body]
fn parse_document(bytes: &[u8]) -> (r: Result<DocKind, String>)
    ensures
        r is Ok <==> document_records(bytes@) is Some,
        r matches Ok(k) ==> Some(doc_kind_count(k)) == document_records(bytes@),
{
    match serde_json::from_slice::<geojson::GeoJson>(bytes) {
        Ok(geojson::GeoJson::FeatureCollection(c)) => Ok(DocKind::Collection(c.features)),
        Ok(geojson::GeoJson::Feature(f)) => Ok(DocKind::Single(f)),
        Ok(geojson::GeoJson::Geometry(g)) => Ok(DocKind::Geometry(g)),
        Err(e) => Err(e.to_string()),
    }
}

/// Relies on `geojson::Feature`'s public fields: moves the parsed property
/// map (empty when the member was absent) and geometry into a record.  A
/// record made this way has no source span of its own.
#[verifier::external_body]
fn feature_to_record(f: geojson::Feature) -> (r: FeatureRecord)
    ensures
        r@ == Seq::<u8>::empty(),
{
    FeatureRecord {
        properties: f.properties.unwrap_or_default(),
        geometry: f.geometry,
        raw: Vec::new(),
    }
}

/// Relies on `serde_json::Map::new` for the empty property map: a bare
/// geometry document becomes a record with no properties and that geometry.
#[verifier::external_body]
fn geometry_to_record(g: geojson::Geometry) -> (r: FeatureRecord)
    ensures
        r@ == Seq::<u8>::empty(),
        r.geometry is Some,
{
    FeatureRecord { properties: serde_json::Map::new(), geometry: Some(g), raw: Vec::new() }
}

/// `n` records cut down to an optional limit.
pub open spec fn limited_count(n: nat, limit: Option<usize>) -> nat {
    match limit {
        Some(m) => if n > m {
            m as nat
        } else {
            n
        },
        None => n,
    }
}

/// Turn a parsed document into records, truncating to `limit` if more were
/// present.  A bare geometry document yields one record carrying that
/// geometry.
pub fn geojson_to_records(kind: DocKind, limit: Option<usize>) -> (r: Vec<FeatureRecord>)
    ensures
        r@.len() == limited_count(doc_kind_count(kind), limit),
        kind matches DocKind::Geometry(_) && r@.len() > 0 ==> r@[0].geometry is Some,
{
    let ghost n0 = doc_kind_count(kind);
    let mut recs: Vec<FeatureRecord> = Vec::new();
    match kind {
        DocKind::Collection(feats) => {
            let mut feats = feats;
            while feats.len() > 0
                invariant
                    recs@.len() + feats@.len() == n0,
                decreases feats@.len(),
            {
                let f = feats.remove(0);
                recs.push(feature_to_record(f));
            }
        },
        DocKind::Single(f) => {
            recs.push(feature_to_record(f));
        },
        DocKind::Geometry(g) => {
            recs.push(geometry_to_record(g));
        },
    }
    if let Some(m) = limit {
        if recs.len() > m {
            recs.truncate(m);
        }
    }
    recs
}

/// A parse error with exactly this message, position and context.
pub open spec fn parse_error_with(
    e: SpatialFormatReadError,
    msg: Seq<char>,
    pos: Option<SourcePosition>,
    ctx: Seq<char>,
) -> bool {
    e matches SpatialFormatReadError::Parse { message, position, context } && message@ == msg
        && position == pos && (context matches Some(c) && c@ == ctx)
}

/// A position naming only a line.
pub open spec fn line_position(ln: nat) -> SourcePosition {
    SourcePosition {
        line: Some(ln as u64),
        column: None,
        byte_offset: None,
        record: None,
        field: None,
    }
}

/// The pieces of `b` between newline bytes; a byte sequence with `n`
/// newlines has `n + 1` lines, empty ones included.
pub open spec fn line_split(b: Seq<u8>) -> Seq<Seq<u8>>
    decreases b.len(),
    via line_split_dec
{
    match find_pat(b, seq![0x0au8]) {
        None => seq![b],
        Some(i) => seq![b.take(i)] + line_split(b.skip(i + 1)),
    }
}

#[via_fn]
proof fn line_split_dec(b: Seq<u8>) {
    lemma_find_pat(b, seq![0x0au8]);
}

/// A line of nothing but whitespace (or nothing at all).
pub open spec fn is_blank(line: Seq<u8>) -> bool {
    ws_count(line) == line.len()
}

/// The line counter, saturating at the machine limit.
pub open spec fn next_line(ln: nat) -> nat {
    if ln + 1 <= u64::MAX {
        (ln + 1) as nat
    } else {
        ln
    }
}

/// What the newline-delimited sequence parser does, line by line.
pub ghost enum LineOutcome {
    /// All lines parsed (or were blank); this many records, capped at the
    /// limit, were collected.
    Count(nat),
    /// This line is not valid UTF-8.
    BadUtf8(nat),
    /// This line is not a parsable GeoJSON document.
    BadLine(nat),
}

/// Fold the sequence parser over the lines: skip blank lines, fail on the
/// first bad one, count the records of each document, and stop once an
/// optional limit is reached.
pub open spec fn seq_parse(
    lines: Seq<Seq<u8>>,
    lineno: nat,
    acc: nat,
    limit: Option<usize>,
) -> LineOutcome
    decreases lines.len(),
{
    if lines.len() == 0 {
        LineOutcome::Count(acc)
    } else {
        let line = lines[0];
        if !valid_utf8(line) {
            LineOutcome::BadUtf8(lineno)
        } else if is_blank(line) {
            seq_parse(lines.skip(1), next_line(lineno), acc, limit)
        } else {
            match document_records(line) {
                None => LineOutcome::BadLine(lineno),
                Some(n) => {
                    let acc2 = acc + n;
                    match limit {
                        Some(m) => if acc2 >= m {
                            LineOutcome::Count(m as nat)
                        } else {
                            seq_parse(lines.skip(1), next_line(lineno), acc2, limit)
                        },
                        None => seq_parse(lines.skip(1), next_line(lineno), acc2, limit),
                    }
                },
            }
        }
    }
}

/// What `parse_geojson_sequence` promises, outcome by outcome.
pub open spec fn sequence_post(
    b: Seq<u8>,
    limit: Option<usize>,
    ctx: Seq<char>,
    r: Result<Vec<FeatureRecord>, SpatialFormatReadError>,
) -> bool {
    match seq_parse(line_split(b), 1, 0, limit) {
        LineOutcome::Count(n) => if n == 0 {
            r matches Err(e) && parse_error_with(e, "No GeoJSON features found"@, None, ctx)
        } else {
            r matches Ok(recs) && recs@.len() == n
        },
        LineOutcome::BadUtf8(ln) => r matches Err(e) && parse_error_with(
            e,
            "GeoJSON line is not valid UTF-8"@,
            Some(line_position(ln)),
            ctx,
        ),
        LineOutcome::BadLine(ln) => r matches Err(e) && (e matches
            SpatialFormatReadError::Parse { message, position, context } && position == Some(
            line_position(ln),
        ) && (context matches Some(c) && c@ == ctx) && (exists|t: Seq<char>|
            message@ == "Failed to parse GeoJSON feature: "@ + t)),
    }
}

/// Parse newline-delimited GeoJSON: each non-blank line is one document, and
/// every document's features are collected until the optional limit is
/// reached.  Fails on the first line that is not UTF-8 or not a document,
/// and when no features are found at all.
pub fn parse_geojson_sequence(bytes: &[u8], limit: Option<usize>, context: &str) -> (r: Result<
    Vec<FeatureRecord>,
    SpatialFormatReadError,
>)
    ensures
        sequence_post(bytes@, limit, context@, r),
{
    let n = bytes.len();
    let mut newline: Vec<u8> = Vec::new();
    newline.push(0x0a);
    let mut recs: Vec<FeatureRecord> = Vec::new();
    let mut off: usize = 0;
    let mut lineno: u64 = 1;
    proof {
        assert(bytes@.skip(0) =~= bytes@);
    }
    loop
        invariant_except_break
            seq_parse(line_split(bytes@), 1, 0, limit) == seq_parse(
                line_split(bytes@.skip(off as int)),
                lineno as nat,
                recs@.len() as nat,
                limit,
            ),
        invariant
            n == bytes@.len(),
            0 <= off <= n,
            lineno >= 1,
            newline@ == seq![0x0au8],
        ensures
            seq_parse(line_split(bytes@), 1, 0, limit) == LineOutcome::Count(
                recs@.len() as nat,
            ),
        decreases n - off,
    {
        let ghost acc_old = recs@.len() as nat;
        let suffix = slice_subrange(bytes, off, n);
        let ghost s = bytes@.skip(off as int);
        proof {
            assert(suffix@ =~= s);
        }
        let nl = find_pattern(suffix, newline.as_slice());
        let line_end: usize = match nl {
            Some(i) => off + i,
            None => n,
        };
        let line = slice_subrange(bytes, off, line_end);
        let ghost lines = line_split(s);
        proof {
            match nl {
                Some(i) => {
                    assert(line@ =~= s.take(i as int));
                    assert(lines == seq![s.take(i as int)] + line_split(s.skip(i + 1)));
                    assert(lines[0] == line@);
                },
                None => {
                    assert(line@ =~= s);
                    assert(lines == seq![s]);
                    assert(lines[0] == line@);
                },
            }
        }
        if !validate_utf8(line) {
            return Err(SpatialFormatReadError::Parse {
                message: String::from_str("GeoJSON line is not valid UTF-8"),
                position: Some(
                    SourcePosition {
                        line: Some(lineno),
                        column: None,
                        byte_offset: None,
                        record: None,
                        field: None,
                    },
                ),
                context: Some(context.to_owned()),
            });
        }
        let w = skip_json_ws(line);
        let blank = w >= line.len();
        proof {
            lemma_ws_count(line@);
            assert(blank == is_blank(line@));
        }
        if !blank {
            match parse_document(line) {
                Err(e) => {
                    let mut msg = String::from_str("Failed to parse GeoJSON feature: ");
                    msg.append(e.as_str());
                    proof {
                        assert(msg@ == "Failed to parse GeoJSON feature: "@ + e@);
                    }
                    return Err(SpatialFormatReadError::Parse {
                        message: msg,
                        position: Some(
                            SourcePosition {
                                line: Some(lineno),
                                column: None,
                                byte_offset: None,
                                record: None,
                                field: None,
                            },
                        ),
                        context: Some(context.to_owned()),
                    });
                },
                Ok(kind) => {
                    let mut newrecs = geojson_to_records(kind, None);
                    recs.append(&mut newrecs);
                    if let Some(m) = limit {
                        if recs.len() >= m {
                            recs.truncate(m);
                            proof {
                                assert(seq_parse(lines, lineno as nat, acc_old, limit)
                                    == LineOutcome::Count(m as nat));
                            }
                            break ;
                        }
                    }
                },
            }
        }
        match nl {
            Some(i) => {
                proof {
                    assert(lines.skip(1) =~= line_split(s.skip(i + 1)));
                    assert(s.skip(i + 1) =~= bytes@.skip(off + i + 1));
                }
                off = off + i + 1;
                if lineno < u64::MAX {
                    lineno = lineno + 1;
                }
            },
            None => {
                proof {
                    assert(lines.skip(1) =~= Seq::<Seq<u8>>::empty());
                    assert(seq_parse(
                        lines.skip(1),
                        next_line(lineno as nat),
                        recs@.len() as nat,
                        limit,
                    ) == LineOutcome::Count(recs@.len() as nat));
                    assert(seq_parse(lines, lineno as nat, acc_old, limit) == LineOutcome::Count(
                        recs@.len() as nat,
                    ));
                }
                break ;
            },
        }
    }
    if recs.len() == 0 {
        Err(SpatialFormatReadError::Parse {
            message: String::from_str("No GeoJSON features found"),
            position: None,
            context: Some(context.to_owned()),
        })
    } else {
        Ok(recs)
    }
}

/// Combine the error of the strict whole-document parse with the error of
/// the newline-sequence fallback into one parse error.
pub fn combine_errors(
    collection_err: &str,
    sequence_err: &SpatialFormatReadError,
    context: String,
) -> (r: SpatialFormatReadError)
    ensures
        r matches SpatialFormatReadError::Parse { message, position, context: c } && position
            is None && (c matches Some(cs) && cs@ == context@) && message@
            == "Failed to parse GeoJSON as FeatureCollection ("@ + collection_err@
            + "); also failed to parse as GeoJSON sequence: "@ + error_text(*sequence_err),
{
    let mut msg = String::from_str("Failed to parse GeoJSON as FeatureCollection (");
    msg.append(collection_err);
    msg.append("); also failed to parse as GeoJSON sequence: ");
    msg.append(sequence_err.display_string().as_str());
    SpatialFormatReadError::Parse { message: msg, position: None, context: Some(context) }
}

/// What `parse_geojson_bytes` promises when the strict whole-document parse
/// fails: the sequence fallback decides, and when it fails too the combined
/// error reports both failures.
pub open spec fn fallback_post(
    b: Seq<u8>,
    limit: Option<usize>,
    ctx: Seq<char>,
    r: Result<Vec<FeatureRecord>, SpatialFormatReadError>,
) -> bool {
    match seq_parse(line_split(b), 1, 0, limit) {
        LineOutcome::Count(n) => if n == 0 {
            r matches Err(e) && combined_error_with(
                e,
                ctx,
                "Parse error"@ + context_text(Some(ctx)) + position_suffix(None) + ": "@
                    + "No GeoJSON features found"@,
            )
        } else {
            r matches Ok(recs) && recs@.len() == n
        },
        LineOutcome::BadUtf8(ln) => r matches Err(e) && combined_error_with(
            e,
            ctx,
            "Parse error"@ + context_text(Some(ctx)) + position_suffix(Some(line_position(ln)))
                + ": "@ + "GeoJSON line is not valid UTF-8"@,
        ),
        LineOutcome::BadLine(ln) => r matches Err(e) && (exists|t: Seq<char>|
            combined_error_with(
                e,
                ctx,
                "Parse error"@ + context_text(Some(ctx)) + position_suffix(
                    Some(line_position(ln)),
                ) + ": "@ + ("Failed to parse GeoJSON feature: "@ + t),
            )),
    }
}

/// A combined strict-plus-sequence parse error whose message embeds the
/// strict parser's own report (not specified further) and the rendered
/// sequence error.
pub open spec fn combined_error_with(
    e: SpatialFormatReadError,
    ctx: Seq<char>,
    seq_text: Seq<char>,
) -> bool {
    e matches SpatialFormatReadError::Parse { message, position, context } && position is None && (
    context matches Some(c) && c@ == ctx) && (exists|t1: Seq<char>|
        message@ == "Failed to parse GeoJSON as FeatureCollection ("@ + t1
            + "); also failed to parse as GeoJSON sequence: "@ + seq_text)
}

/// Parse raw bytes into feature records: first as one whole GeoJSON document
/// (a `FeatureCollection`, bare `Feature` or bare geometry), then as
/// newline-delimited documents; when both fail, the error reports both
/// failures.
pub fn parse_geojson_bytes(bytes: &[u8], limit: Option<usize>, context: &str) -> (r: Result<
    Vec<FeatureRecord>,
    SpatialFormatReadError,
>)
    ensures
        document_parses(bytes@) ==> (r matches Ok(recs) && recs@.len() == limited_count(
            document_records(bytes@)->Some_0,
            limit,
        )),
        !document_parses(bytes@) ==> fallback_post(bytes@, limit, context@, r),
{
    match parse_document(bytes) {
        Ok(kind) => Ok(geojson_to_records(kind, limit)),
        Err(primary) => {
            match parse_geojson_sequence(bytes, limit, context) {
                Ok(recs) => Ok(recs),
                Err(seq_err) => {
                    let combined = combine_errors(primary.as_str(), &seq_err, context.to_owned());
                    Err(combined)
                },
            }
        },
    }
}

/// The four-byte boundary `"} },"` between pretty-printed sibling features:
/// a feature-object close immediately followed by a comma.
pub open spec fn boundary_pat() -> Seq<u8> {
    seq![0x7du8, 0x20u8, 0x7du8, 0x2cu8]
}

/// The `" ] }"` appended after a truncation to re-close the features array
/// and the surrounding object.
pub open spec fn closer_text() -> Seq<u8> {
    seq![0x20u8, 0x5du8, 0x20u8, 0x7du8]
}

/// The empty `FeatureCollection` document used when no feature boundary can
/// be found at all.
pub open spec fn empty_collection_text() -> Seq<u8> {
    seq![
        0x7bu8, 0x22u8, 0x74u8, 0x79u8, 0x70u8, 0x65u8, 0x22u8, 0x3au8, 0x22u8, 0x46u8, 0x65u8,
        0x61u8, 0x74u8, 0x75u8, 0x72u8, 0x65u8, 0x43u8, 0x6fu8, 0x6cu8, 0x6cu8, 0x65u8, 0x63u8,
        0x74u8, 0x69u8, 0x6fu8, 0x6eu8, 0x22u8, 0x2cu8, 0x22u8, 0x66u8, 0x65u8, 0x61u8, 0x74u8,
        0x75u8, 0x72u8, 0x65u8, 0x73u8, 0x22u8, 0x3au8, 0x5bu8, 0x5du8, 0x7du8,
    ]
}

/// What the repair step yields: everything up to and including the last
/// `"} }"` before a comma, re-closed with `" ] }"`; or the empty collection
/// when the boundary pattern never occurs.
pub open spec fn fix_spec(b: Seq<u8>) -> Seq<u8> {
    match rfind_pat(b, boundary_pat()) {
        Some(i) => b.take(i + 3) + closer_text(),
        None => empty_collection_text(),
    }
}

/// Attempt to fix truncated GeoJSON by finding the last complete feature
/// boundary and closing the JSON structure properly.  This heuristic is
/// tuned to the pretty-printed `"} },"` shape and deliberately does not
/// generalize to other formattings.
pub fn fix_truncated_geojson(text: &[u8]) -> (r: Vec<u8>)
    ensures
        r@ == fix_spec(text@),
{
    let mut pat: Vec<u8> = Vec::new();
    pat.push(0x7d);
    pat.push(0x20);
    pat.push(0x7d);
    pat.push(0x2c);
    proof {
        assert(pat@ =~= boundary_pat());
    }
    let n = text.len();
    match rfind_pattern(text, pat.as_slice()) {
        Some(i) => {
            proof {
                assert(pat@.len() == 4);
                assert(i + 4 <= n);
            }
            let mut out = slice_to_vec(slice_subrange(text, 0, i + 3));
            out.push(0x20);
            out.push(0x5d);
            out.push(0x20);
            out.push(0x7d);
            proof {
                assert(out@ =~= text@.take(i + 3 as int) + closer_text());
            }
            out
        },
        None => {
            let mut out: Vec<u8> = Vec::new();
            out.push(0x7b);
            out.push(0x22);
            out.push(0x74);
            out.push(0x79);
            out.push(0x70);
            out.push(0x65);
            out.push(0x22);
            out.push(0x3a);
            out.push(0x22);
            out.push(0x46);
            out.push(0x65);
            out.push(0x61);
            out.push(0x74);
            out.push(0x75);
            out.push(0x72);
            out.push(0x65);
            out.push(0x43);
            out.push(0x6f);
            out.push(0x6c);
            out.push(0x6c);
            out.push(0x65);
            out.push(0x63);
            out.push(0x74);
            out.push(0x69);
            out.push(0x6f);
            out.push(0x6e);
            out.push(0x22);
            out.push(0x2c);
            out.push(0x22);
            out.push(0x66);
            out.push(0x65);
            out.push(0x61);
            out.push(0x74);
            out.push(0x75);
            out.push(0x72);
            out.push(0x65);
            out.push(0x73);
            out.push(0x22);
            out.push(0x3a);
            out.push(0x5b);
            out.push(0x5d);
            out.push(0x7d);
            proof {
                assert(out@ =~= empty_collection_text());
            }
            out
        },
    }
}

/// The feature spans the repair path slices out of the re-closed text,
/// walking from `i`: whitespace and commas are skipped, a closing `]` or the
/// end of a complete object scan ends the walk, spans that parse are kept
/// (until the optional limit is reached) and spans that do not are skipped,
/// leniently.
pub open spec fn collect_spans(b: Seq<u8>, i: int, taken: nat, limit: Option<usize>) -> Seq<
    Seq<u8>,
>
    decreases b.len() - i,
    when 0 <= i <= b.len()
    via collect_spans_dec
{
    let w = ws_count(b.skip(i));
    let p = i + w;
    if p >= b.len() {
        Seq::empty()
    } else if b[p] == 0x5d {
        Seq::empty()
    } else if b[p] == 0x2c {
        collect_spans(b, p + 1, taken, limit)
    } else {
        match obj_end(b.skip(p)) {
            None => Seq::empty(),
            Some(e) => {
                let span = b.subrange(p, p + e);
                if feature_parses(span) {
                    let stop = match limit {
                        Some(m) => taken + 1 >= m,
                        None => false,
                    };
                    if stop {
                        seq![span]
                    } else {
                        seq![span] + collect_spans(b, p + e, taken + 1, limit)
                    }
                } else {
                    collect_spans(b, p + e, taken, limit)
                }
            },
        }
    }
}

#[via_fn]
proof fn collect_spans_dec(b: Seq<u8>, i: int, taken: nat, limit: Option<usize>) {
    lemma_ws_count(b.skip(i));
    let w = ws_count(b.skip(i));
    let p = i + w;
    if p < b.len() && b[p] != 0x5d && b[p] != 0x2c {
        if obj_end(b.skip(p)) is Some {
            lemma_obj_end_bounds(b.skip(p), 0, scan_init());
        }
    }
}

/// Whether the strict path (whole document, or newline sequence) succeeds.
pub open spec fn strict_path_ok(b: Seq<u8>, limit: Option<usize>) -> bool {
    document_parses(b) || (seq_parse(line_split(b), 1, 0, limit) matches LineOutcome::Count(n)
        && n > 0)
}

/// What the lenient schema-inference parser promises: the strict parser's
/// result when it succeeds; otherwise a fatal error on invalid UTF-8; and
/// otherwise the repaired text's surviving features, with an error
/// distinguishing a missing features array from zero surviving features.
pub open spec fn partial_post(
    b: Seq<u8>,
    limit: Option<usize>,
    ctx: Seq<char>,
    r: Result<Vec<FeatureRecord>, SpatialFormatReadError>,
) -> bool {
    if strict_path_ok(b, limit) {
        &&& document_parses(b) ==> (r matches Ok(recs) && recs@.len() == limited_count(
            document_records(b)->Some_0,
            limit,
        ))
        &&& !document_parses(b) ==> (r matches Ok(recs) && seq_parse(line_split(b), 1, 0, limit)
            == LineOutcome::Count(recs@.len() as nat))
    } else if !valid_utf8(b) {
        r matches Err(e) && parse_error_with(
            e,
            "Invalid UTF-8: input is not valid UTF-8 text"@,
            None,
            ctx,
        )
    } else {
        let fixed = fix_spec(b);
        match header_end(fixed) {
            None => r matches Err(e) && parse_error_with(
                e,
                "No 'features' array found in object"@,
                None,
                ctx,
            ),
            Some(h) => {
                let spans = collect_spans(fixed, h, 0, limit);
                if spans.len() == 0 {
                    r matches Err(e) && parse_error_with(
                        e,
                        "No valid features found in partial GeoJSON"@,
                        None,
                        ctx,
                    )
                } else {
                    r matches Ok(recs) && rec_views(recs@) == spans && (forall|k: int|
                        0 <= k < spans.len() ==> feature_parses(#[trigger] spans[k]))
                }
            },
        }
    }
}

/// Parse raw bytes that may contain incomplete or truncated GeoJSON, for
/// schema inference.  More lenient than `parse_geojson_bytes`: when strict
/// parsing fails, the text is cut back to its last complete feature
/// boundary, re-closed, and the surviving features are parsed one by one,
/// silently skipping any that fail.
///
/// The surviving features are sliced out of the re-closed text with the
/// verified span scanner, rather than by re-parsing the whole repaired text
/// as general JSON and walking its `features` array.  On ordinary
/// truncations the two agree; on degenerate inputs whose repaired text is
/// not itself valid JSON this path is the more lenient, reporting zero
/// surviving features instead of a whole-text JSON parse failure.
pub fn parse_geojson_bytes_partial(bytes: &[u8], limit: Option<usize>, context: &str) -> (r:
    Result<Vec<FeatureRecord>, SpatialFormatReadError>)
    ensures
        partial_post(bytes@, limit, context@, r),
{
    match parse_geojson_bytes(bytes, limit, context) {
        Ok(recs) => {
            return Ok(recs);
        },
        Err(_) => {},
    }
    if !validate_utf8(bytes) {
        return Err(SpatialFormatReadError::Parse {
            message: String::from_str("Invalid UTF-8: input is not valid UTF-8 text"),
            position: None,
            context: Some(context.to_owned()),
        });
    }
    let fixed = fix_truncated_geojson(bytes);
    let h = match GeoJsonDecoder::header_scan(fixed.as_slice()) {
        Some(h) => h,
        None => {
            return Err(SpatialFormatReadError::Parse {
                message: String::from_str("No 'features' array found in object"),
                position: None,
                context: Some(context.to_owned()),
            });
        },
    };
    let flen = fixed.len();
    let mut recs: Vec<FeatureRecord> = Vec::new();
    let mut pos: usize = h;
    proof {
        assert(Seq::<Seq<u8>>::empty() + collect_spans(fixed@, h as int, 0, limit)
            =~= collect_spans(fixed@, h as int, 0, limit));
        assert(rec_views(recs@) =~= Seq::<Seq<u8>>::empty());
    }
    loop
        invariant_except_break
            collect_spans(fixed@, h as int, 0, limit) == rec_views(recs@) + collect_spans(
                fixed@,
                pos as int,
                recs@.len() as nat,
                limit,
            ),
        invariant
            flen == fixed@.len(),
            h <= flen,
            0 <= pos <= flen,
            forall|k: int| 0 <= k < recs@.len() ==> feature_parses(#[trigger] recs@[k]@),
        ensures
            collect_spans(fixed@, h as int, 0, limit) == rec_views(recs@),
        decreases flen - pos,
    {
        let ghost recs_before = recs@;
        let tail = slice_subrange(fixed.as_slice(), pos, flen);
        proof {
            assert(tail@ =~= fixed@.skip(pos as int));
            lemma_ws_count(fixed@.skip(pos as int));
        }
        let w = skip_json_ws(tail);
        if pos + w >= flen {
            proof {
                assert(collect_spans(fixed@, pos as int, recs@.len() as nat, limit)
                    =~= Seq::<Seq<u8>>::empty());
                assert(rec_views(recs@) + Seq::<Seq<u8>>::empty() =~= rec_views(recs@));
            }
            break ;
        }
        let c = fixed[pos + w];
        if c == 0x5d {
            proof {
                assert(collect_spans(fixed@, pos as int, recs@.len() as nat, limit)
                    =~= Seq::<Seq<u8>>::empty());
                assert(rec_views(recs@) + Seq::<Seq<u8>>::empty() =~= rec_views(recs@));
            }
            break ;
        }
        if c == 0x2c {
            pos = pos + w + 1;
            continue ;
        }
        let obj_tail = slice_subrange(fixed.as_slice(), pos + w, flen);
        proof {
            assert(obj_tail@ =~= fixed@.skip(pos + w as int));
        }
        match scan_object_end(obj_tail) {
            None => {
                proof {
                    assert(collect_spans(fixed@, pos as int, recs@.len() as nat, limit)
                        =~= Seq::<Seq<u8>>::empty());
                    assert(rec_views(recs@) + Seq::<Seq<u8>>::empty() =~= rec_views(recs@));
                }
                break ;
            },
            Some(e) => {
                proof {
                    lemma_obj_end_bounds(obj_tail@, 0, scan_init());
                }
                let span_slice = slice_subrange(fixed.as_slice(), pos + w, pos + w + e);
                let ghost span = fixed@.subrange(pos + w as int, pos + w + e as int);
                proof {
                    assert(span_slice@ =~= span);
                }
                match feature_record_from_slice(span_slice) {
                    Some(rec) => {
                        recs.push(rec);
                        proof {
                            assert(rec_views(recs@) =~= rec_views(recs_before) + seq![span]);
                        }
                        let mut stop = false;
                        if let Some(m) = limit {
                            if recs.len() >= m {
                                stop = true;
                            }
                        }
                        if stop {
                            proof {
                                assert(collect_spans(
                                    fixed@,
                                    pos as int,
                                    recs_before.len() as nat,
                                    limit,
                                ) == seq![span]);
                            }
                            break ;
                        }
                        proof {
                            assert((rec_views(recs_before) + seq![span]) + collect_spans(
                                fixed@,
                                pos + w + e as int,
                                recs@.len() as nat,
                                limit,
                            ) =~= rec_views(recs_before) + (seq![span] + collect_spans(
                                fixed@,
                                pos + w + e as int,
                                recs@.len() as nat,
                                limit,
                            )));
                        }
                        pos = pos + w + e;
                    },
                    None => {
                        pos = pos + w + e;
                    },
                }
            },
        }
    }
    if recs.len() == 0 {
        Err(SpatialFormatReadError::Parse {
            message: String::from_str("No valid features found in partial GeoJSON"),
            position: None,
            context: Some(context.to_owned()),
        })
    } else {
        Ok(recs)
    }
}

} // verus!

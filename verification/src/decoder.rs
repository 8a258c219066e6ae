//! Streaming decoder for GeoJSON data.
//!
//! This module implements incremental parsing of GeoJSON data from byte
//! streams, allowing processing of arbitrarily large files with memory
//! bounded by the size of a single feature (plus the fixed buffering cap),
//! not by file size.  Chunks may be cut anywhere; the decoder accumulates
//! them and emits a feature as soon as its complete object has arrived.
//!
//! Each public operation is specified against the decoder's mathematical
//! model in [`crate::model`]: one call of [`GeoJsonDecoder::decode`] performs
//! exactly one [`drain`] of the buffer.

use vstd::prelude::*;

verus! {

use crate::model::{
    decode_step, drain, drain_decomposes, drain_out, finish_step, header_end,
    lemma_decompose_init, lemma_decompose_step, lemma_step_consumed, spans_opt, DecodeFault,
    DrainOut, DrainResult, FinishOut, ParserState, StreamStep, MAX_BUFFER_SIZE,
};
use crate::record::{feature_parses, feature_record_from_slice, FeatureRecord};
use crate::scan::{
    find_pattern, lemma_obj_end_bounds, lemma_ws_count, obj_end, scan_init, scan_object_end,
    skip_json_ws, ws_count,
};
use crate::shared::SpatialFormatReadError;
use crate::utf8check::validate_utf8;
use vstd::slice::{slice_subrange, slice_to_vec};
use vstd::string::StringExecFns;
use vstd::utf8::valid_utf8;

/// The message of the fault raised when the collection header is not found
/// within the buffering cap.
pub open spec fn header_fault_text() -> Seq<char> {
    "Could not find FeatureCollection header in first 1MB of data"@
}

/// The message of the fault raised when a complete object refuses to parse as
/// a feature while the buffer is over the cap.
pub open spec fn malformed_fault_text() -> Seq<char> {
    "Failed to parse GeoJSON feature: complete object is not a valid Feature"@
}

/// What the decoder's faults look like as errors: a parse error whose message
/// names the fault and whose context is the decoder's source label.
pub open spec fn fault_error(f: DecodeFault, e: SpatialFormatReadError, source: Seq<char>) -> bool {
    e matches SpatialFormatReadError::Parse { message, position, context } && position is None && (
    context matches Some(c) && c@ == source) && message@ == match f {
        DecodeFault::HeaderNotFound => header_fault_text(),
        DecodeFault::MalformedFeature => malformed_fault_text(),
    }
}

/// The feature spans a sequence of records was parsed from, in order.
pub open spec fn rec_views(s: Seq<FeatureRecord>) -> Seq<Seq<u8>> {
    Seq::new(s.len(), |i: int| s[i]@)
}

/// The decode counter after yielding `n` more features, saturating at the
/// machine limit; the counter is diagnostic only.
pub open spec fn counter_after(fd: int, n: int) -> int {
    if fd + n <= usize::MAX {
        fd + n
    } else {
        usize::MAX as int
    }
}

/// Everything one call of `decode` promises: the buffer grows by the chunk
/// and is then drained; the records returned are exactly the feature spans
/// the drain emits, each parsing as a feature; on a fault the corresponding
/// error is returned instead and the records of this call are dropped, while
/// buffer and state keep the progress made before the fault.
pub open spec fn decode_post(
    pre: GeoJsonDecoder,
    chunk: Seq<u8>,
    post: GeoJsonDecoder,
    r: Result<Vec<FeatureRecord>, SpatialFormatReadError>,
) -> bool {
    let b0 = pre.buffer@ + chunk;
    let d = drain(pre.state, b0);
    let o = drain_out(d);
    &&& post.state == o.state
    &&& post.buffer@ == b0.skip(o.consumed)
    &&& post.source@ == pre.source@
    &&& post.features_decoded as int == counter_after(
        pre.features_decoded as int,
        o.spans.len() as int,
    )
    &&& match d {
        DrainResult::Complete(_) => r matches Ok(recs) && rec_views(recs@) == o.spans && (forall|
            k: int,
        |
            0 <= k < o.spans.len() ==> feature_parses(#[trigger] o.spans[k])),
        DrainResult::Faulted(_, f) => r matches Err(e) && fault_error(f, e, pre.source@),
    }
}

/// What `skip_to_next_feature` reports about the front of the buffer.
#[derive(Debug, Clone, Copy, PartialEq, Eq, Structural)]
pub enum SkipResult {
    /// A comma follows the whitespace; consuming this many bytes eats it.
    Comma(usize),
    /// The closing bracket follows; consuming this many bytes eats it.
    Close(usize),
    /// Neither has arrived (or the buffer is not yet valid UTF-8).
    NeedMore,
}

/// The separator scan: skip whitespace, then report `,` or `]`.  Anything
/// else — including a buffer that is not yet valid UTF-8 as a whole — asks
/// for more input; no cap is enforced on this path, leniently.
pub open spec fn skip_spec(b: Seq<u8>) -> SkipResult {
    if !valid_utf8(b) {
        SkipResult::NeedMore
    } else {
        let w = ws_count(b);
        if w >= b.len() {
            SkipResult::NeedMore
        } else if b[w] == 0x2c {
            SkipResult::Comma((w + 1) as usize)
        } else if b[w] == 0x5d {
            SkipResult::Close((w + 1) as usize)
        } else {
            SkipResult::NeedMore
        }
    }
}

/// Streaming GeoJSON decoder that accepts chunks of bytes and yields complete
/// features.  One instance decodes one logical source and is never reused.
pub struct GeoJsonDecoder {
    /// Internal buffer holding the suffix of the input not yet accounted for.
    pub buffer: Vec<u8>,
    /// Parser state.
    pub state: ParserState,
    /// Source path, used only for error attribution.
    pub source: String,
    /// Number of features decoded so far; diagnostic only.
    pub features_decoded: usize,
}

impl GeoJsonDecoder {
    /// Create a new streaming GeoJSON decoder for the given source label.
    pub fn new(source: String) -> (r: Self)
        ensures
            r.buffer@ == Seq::<u8>::empty(),
            r.state == ParserState::ExpectingHeader,
            r.source@ == source@,
            r.features_decoded == 0,
    {
        GeoJsonDecoder {
            buffer: Vec::with_capacity(256 * 1024),
            state: ParserState::ExpectingHeader,
            source,
            features_decoded: 0,
        }
    }

    /// The quoted key `"features"` as bytes.
    fn features_pattern() -> (r: Vec<u8>)
        ensures
            r@ == crate::model::features_key(),
    {
        let mut v: Vec<u8> = Vec::new();
        v.push(0x22);
        v.push(0x66);
        v.push(0x65);
        v.push(0x61);
        v.push(0x74);
        v.push(0x75);
        v.push(0x72);
        v.push(0x65);
        v.push(0x73);
        v.push(0x22);
        proof {
            assert(v@ =~= crate::model::features_key());
        }
        v
    }

    /// Find the offset one past the `[` that opens the features array in a
    /// `FeatureCollection`: after the first occurrence of the quoted key
    /// `"features"` there must follow optional whitespace, `:`, optional
    /// whitespace, and `[`.  Returns `None` while the buffer (which must be
    /// valid UTF-8 as a whole to be read as text) has not resolved that much.
    pub fn find_features_array_start(&self) -> (r: Option<usize>)
        ensures
            r matches Some(p) ==> valid_utf8(self.buffer@) && header_end(self.buffer@) == Some(
                p as int,
            ),
            r is None ==> !valid_utf8(self.buffer@) || header_end(self.buffer@) is None,
    {
        if !validate_utf8(self.buffer.as_slice()) {
            return None;
        }
        Self::header_scan(self.buffer.as_slice())
    }

    /// The textual header scan behind `find_features_array_start`.
    pub(crate) fn header_scan(b: &[u8]) -> (r: Option<usize>)
        ensures
            r matches Some(p) ==> header_end(b@) == Some(p as int) && p as int <= b@.len(),
            r is None ==> header_end(b@) is None,
    {
        let n = b.len();
        let pat = Self::features_pattern();
        proof {
            assert(crate::model::features_key().len() == 10);
        }
        let f = match find_pattern(b, pat.as_slice()) {
            Some(f) => f,
            None => {
                return None;
            },
        };
        // The key occupies ten bytes; skip whitespace after it.
        let after_key = f + 10;
        let w1 = skip_json_ws(slice_subrange(b, after_key, n));
        proof {
            assert(b@.subrange(after_key as int, n as int) =~= b@.skip(after_key as int));
            lemma_ws_count(b@.skip(after_key as int));
        }
        let i = after_key + w1;
        if i >= n {
            return None;
        }
        if *vstd::slice::slice_index_get(b, i) != 0x3a {
            return None;
        }
        let w2 = skip_json_ws(slice_subrange(b, i + 1, n));
        proof {
            assert(b@.subrange(i + 1 as int, n as int) =~= b@.skip(i + 1 as int));
            lemma_ws_count(b@.skip(i + 1 as int));
        }
        let q = i + 1 + w2;
        if q >= n {
            return None;
        }
        if *vstd::slice::slice_index_get(b, q) == 0x5b {
            Some(q + 1)
        } else {
            None
        }
    }

    /// Extract a complete JSON object from the front of the text (after any
    /// bytes preceding its opening brace), returning the matched text and the
    /// number of bytes it occupies.  Returns `None` while no complete
    /// balanced object has arrived — never a wrong answer on a truncation.
    pub fn extract_json_object(text: &[u8]) -> (r: Option<(&[u8], usize)>)
        ensures
            match obj_end(text@) {
                Some(j) => r matches Some((s, c)) && c as int == j && s@ == text@.take(j),
                None => r is None,
            },
    {
        match scan_object_end(text) {
            Some(e) => {
                proof {
                    lemma_obj_end_bounds(text@, 0, scan_init());
                    assert(text@.subrange(0, e as int) =~= text@.take(e as int));
                }
                Some((slice_subrange(text, 0, e), e))
            },
            None => None,
        }
    }

    /// Skip whitespace and look for the comma or closing bracket that must
    /// follow a completed feature.
    pub fn skip_to_next_feature(&self) -> (r: SkipResult)
        ensures
            r == skip_spec(self.buffer@),
            r matches SkipResult::Comma(p) ==> valid_utf8(self.buffer@) && ws_count(self.buffer@)
                < self.buffer@.len() && self.buffer@[ws_count(self.buffer@)] == 0x2c && p as int
                == ws_count(self.buffer@) + 1,
            r matches SkipResult::Close(p) ==> valid_utf8(self.buffer@) && ws_count(self.buffer@)
                < self.buffer@.len() && self.buffer@[ws_count(self.buffer@)] == 0x5d && p as int
                == ws_count(self.buffer@) + 1,
    {
        if !validate_utf8(self.buffer.as_slice()) {
            return SkipResult::NeedMore;
        }
        let w = skip_json_ws(self.buffer.as_slice());
        if w >= self.buffer.len() {
            return SkipResult::NeedMore;
        }
        let c = self.buffer[w];
        if c == 0x2c {
            SkipResult::Comma(w + 1)
        } else if c == 0x5d {
            SkipResult::Close(w + 1)
        } else {
            SkipResult::NeedMore
        }
    }

    /// Try to parse one complete feature from the front of the buffer.
    /// `Ok(Some(record, consumed))` when a complete object is present and
    /// parses; `Ok(None)` when more input may still resolve the situation;
    /// an error when a complete object refuses to parse while the buffer is
    /// already over the cap.
    fn try_parse_feature(&self) -> (r: Result<
        Option<(FeatureRecord, usize)>,
        SpatialFormatReadError,
    >)
        ensures
            ({
                let b = self.buffer@;
                if !valid_utf8(b) {
                    r matches Ok(None)
                } else {
                    let w = ws_count(b);
                    if w >= b.len() {
                        r matches Ok(None)
                    } else {
                        match obj_end(b.skip(w)) {
                            None => r matches Ok(None),
                            Some(e) => {
                                let span = b.subrange(w, w + e);
                                if feature_parses(span) {
                                    r matches Ok(Some((rec, c))) && rec@ == span && c as int == w
                                        + e
                                } else if b.len() > MAX_BUFFER_SIZE {
                                    r matches Err(err) && fault_error(
                                        DecodeFault::MalformedFeature,
                                        err,
                                        self.source@,
                                    )
                                } else {
                                    r matches Ok(None)
                                }
                            },
                        }
                    }
                }
            }),
    {
        if !validate_utf8(self.buffer.as_slice()) {
            return Ok(None);
        }
        let n = self.buffer.len();
        let w = skip_json_ws(self.buffer.as_slice());
        if w >= n {
            return Ok(None);
        }
        let tail = slice_subrange(self.buffer.as_slice(), w, n);
        proof {
            assert(tail@ =~= self.buffer@.skip(w as int));
        }
        match scan_object_end(tail) {
            None => Ok(None),
            Some(e) => {
                proof {
                    lemma_obj_end_bounds(tail@, 0, scan_init());
                }
                let span_slice = slice_subrange(tail, 0, e);
                proof {
                    assert(span_slice@ =~= self.buffer@.subrange(w as int, w + e as int));
                }
                match feature_record_from_slice(span_slice) {
                    Some(rec) => Ok(Some((rec, w + e))),
                    None => {
                        if n > MAX_BUFFER_SIZE {
                            Err(SpatialFormatReadError::Parse {
                                message: String::from_str(
                                    "Failed to parse GeoJSON feature: complete object is not a valid Feature",
                                ),
                                position: None,
                                context: Some(self.source.clone()),
                            })
                        } else {
                            Ok(None)
                        }
                    },
                }
            },
        }
    }

    /// Feed bytes into the decoder and extract any complete features.
    ///
    /// The call appends the chunk to the internal buffer and then advances the
    /// state machine as far as the buffer allows, yielding every feature that
    /// completed.  An empty vector means more data is needed.  One call
    /// performs exactly one [`drain`] of the model.
    ///
    /// Each attempt re-scans from the start of the live buffer rather than
    /// keeping scanner position across calls: a simplicity trade-off that
    /// degrades only when a single feature is very large relative to the
    /// chunk size, which is acceptable for this domain.
    pub fn decode(&mut self, bytes: &[u8]) -> (r: Result<
        Vec<FeatureRecord>,
        SpatialFormatReadError,
    >)
        ensures
            decode_post(*old(self), bytes@, *final(self), r),
    {
        let mut chunk = slice_to_vec(bytes);
        self.buffer.append(&mut chunk);
        let ghost st0 = self.state;
        let ghost b0 = self.buffer@;
        let ghost fd0 = self.features_decoded as int;
        let ghost total = drain(st0, b0);
        let mut features: Vec<FeatureRecord> = Vec::new();
        let ghost mut consumed_total: int = 0;
        proof {
            lemma_decompose_init(st0, b0);
            assert(rec_views(features@) =~= Seq::<Seq<u8>>::empty());
        }
        loop
            invariant
                b0 == old(self).buffer@ + bytes@,
                st0 == old(self).state,
                total == drain(st0, b0),
                0 <= consumed_total <= b0.len(),
                self.buffer@ == b0.skip(consumed_total),
                self.source@ == old(self).source@,
                drain_decomposes(total, rec_views(features@), consumed_total, drain(
                    self.state,
                    self.buffer@,
                )),
                forall|k: int|
                    0 <= k < features@.len() ==> feature_parses(#[trigger] features@[k]@),
                self.features_decoded as int == counter_after(fd0, features@.len() as int),
                fd0 == old(self).features_decoded as int,
            ensures
                decode_step(self.state, self.buffer@) is Stall,
            decreases self.buffer@.len(),
        {
            let ghost cur_st = self.state;
            let ghost cur_buf = self.buffer@;
            match self.state {
                ParserState::ExpectingHeader => {
                    match self.find_features_array_start() {
                        Some(pos) => {
                            proof {
                                assert(decode_step(cur_st, cur_buf) == (StreamStep::Advance {
                                    next: ParserState::ExpectingFeature,
                                    consumed: pos as int,
                                    span: None,
                                }));
                                lemma_decompose_step(
                                    total,
                                    rec_views(features@),
                                    consumed_total,
                                    cur_st,
                                    cur_buf,
                                );
                                lemma_step_consumed(cur_st, cur_buf);
                            }
                            let tail = self.buffer.split_off(pos);
                            self.buffer = tail;
                            self.state = ParserState::ExpectingFeature;
                            proof {
                                consumed_total = consumed_total + pos as int;
                                assert(cur_buf.skip(pos as int) =~= b0.skip(consumed_total));
                                assert(rec_views(features@) + spans_opt(None) =~= rec_views(
                                    features@,
                                ));
                            }
                        },
                        None => {
                            if self.buffer.len() > MAX_BUFFER_SIZE {
                                proof {
                                    assert(decode_step(cur_st, cur_buf) == StreamStep::Fault(
                                        DecodeFault::HeaderNotFound,
                                    ));
                                }
                                return Err(SpatialFormatReadError::Parse {
                                    message: String::from_str(
                                        "Could not find FeatureCollection header in first 1MB of data",
                                    ),
                                    position: None,
                                    context: Some(self.source.clone()),
                                });
                            } else {
                                proof {
                                    assert(decode_step(cur_st, cur_buf) is Stall);
                                }
                                break ;
                            }
                        },
                    }
                },
                ParserState::ExpectingFeature => {
                    if !validate_utf8(self.buffer.as_slice()) {
                        proof {
                            assert(decode_step(cur_st, cur_buf) is Stall);
                        }
                        break ;
                    }
                    let w = skip_json_ws(self.buffer.as_slice());
                    proof {
                        lemma_ws_count(cur_buf);
                    }
                    if w >= self.buffer.len() {
                        proof {
                            assert(decode_step(cur_st, cur_buf) is Stall);
                        }
                        break ;
                    }
                    if self.buffer[w] == 0x5d {
                        proof {
                            assert(decode_step(cur_st, cur_buf) == (StreamStep::Advance {
                                next: ParserState::Done,
                                consumed: w + 1 as int,
                                span: None,
                            }));
                            lemma_decompose_step(
                                total,
                                rec_views(features@),
                                consumed_total,
                                cur_st,
                                cur_buf,
                            );
                        }
                        let tail = self.buffer.split_off(w + 1);
                        self.buffer = tail;
                        self.state = ParserState::Done;
                        proof {
                            consumed_total = consumed_total + (w + 1) as int;
                            assert(cur_buf.skip(w + 1 as int) =~= b0.skip(consumed_total));
                            assert(rec_views(features@) + spans_opt(None) =~= rec_views(
                                features@,
                            ));
                        }
                    } else {
                        match self.try_parse_feature() {
                            Ok(Some((record, consumed))) => {
                                let ghost w0 = ws_count(cur_buf);
                                let ghost e0 = obj_end(cur_buf.skip(w0))->Some_0;
                                let ghost span = cur_buf.subrange(w0, w0 + e0);
                                proof {
                                    lemma_obj_end_bounds(cur_buf.skip(w0), 0, scan_init());
                                    assert(record@ == span && consumed as int == w0 + e0);
                                    assert(decode_step(cur_st, cur_buf) == (StreamStep::Advance {
                                        next: ParserState::ExpectingCommaOrClose,
                                        consumed: consumed as int,
                                        span: Some(span),
                                    }));
                                    lemma_decompose_step(
                                        total,
                                        rec_views(features@),
                                        consumed_total,
                                        cur_st,
                                        cur_buf,
                                    );
                                }
                                let ghost features_before = features@;
                                features.push(record);
                                if self.features_decoded < usize::MAX {
                                    self.features_decoded = self.features_decoded + 1;
                                }
                                let tail = self.buffer.split_off(consumed);
                                self.buffer = tail;
                                self.state = ParserState::ExpectingCommaOrClose;
                                proof {
                                    consumed_total = consumed_total + consumed as int;
                                    assert(cur_buf.skip(consumed as int) =~= b0.skip(
                                        consumed_total,
                                    ));
                                    assert(rec_views(features@) =~= rec_views(features_before)
                                        + spans_opt(Some(span)));
                                }
                            },
                            Ok(None) => {
                                proof {
                                    assert(decode_step(cur_st, cur_buf) is Stall);
                                }
                                break ;
                            },
                            Err(e) => {
                                proof {
                                    assert(decode_step(cur_st, cur_buf) == StreamStep::Fault(
                                        DecodeFault::MalformedFeature,
                                    ));
                                }
                                return Err(e);
                            },
                        }
                    }
                },
                ParserState::ExpectingCommaOrClose => {
                    match self.skip_to_next_feature() {
                        SkipResult::Comma(pos) => {
                            proof {
                                assert(decode_step(cur_st, cur_buf) == (StreamStep::Advance {
                                    next: ParserState::ExpectingFeature,
                                    consumed: pos as int,
                                    span: None,
                                }));
                                lemma_decompose_step(
                                    total,
                                    rec_views(features@),
                                    consumed_total,
                                    cur_st,
                                    cur_buf,
                                );
                                lemma_step_consumed(cur_st, cur_buf);
                            }
                            let tail = self.buffer.split_off(pos);
                            self.buffer = tail;
                            self.state = ParserState::ExpectingFeature;
                            proof {
                                consumed_total = consumed_total + pos as int;
                                assert(cur_buf.skip(pos as int) =~= b0.skip(consumed_total));
                                assert(rec_views(features@) + spans_opt(None) =~= rec_views(
                                    features@,
                                ));
                            }
                        },
                        SkipResult::Close(pos) => {
                            proof {
                                assert(decode_step(cur_st, cur_buf) == (StreamStep::Advance {
                                    next: ParserState::Done,
                                    consumed: pos as int,
                                    span: None,
                                }));
                                lemma_decompose_step(
                                    total,
                                    rec_views(features@),
                                    consumed_total,
                                    cur_st,
                                    cur_buf,
                                );
                                lemma_step_consumed(cur_st, cur_buf);
                            }
                            let tail = self.buffer.split_off(pos);
                            self.buffer = tail;
                            self.state = ParserState::Done;
                            proof {
                                consumed_total = consumed_total + pos as int;
                                assert(cur_buf.skip(pos as int) =~= b0.skip(consumed_total));
                                assert(rec_views(features@) + spans_opt(None) =~= rec_views(
                                    features@,
                                ));
                            }
                        },
                        SkipResult::NeedMore => {
                            proof {
                                assert(decode_step(cur_st, cur_buf) is Stall);
                            }
                            break ;
                        },
                    }
                },
                ParserState::Done => {
                    proof {
                        assert(decode_step(cur_st, cur_buf) is Stall);
                    }
                    break ;
                },
            }
        }
        proof {
            assert(decode_step(self.state, self.buffer@) is Stall);
            assert(drain(self.state, self.buffer@) == DrainResult::Complete(
                DrainOut { spans: Seq::empty(), state: self.state, consumed: 0 },
            ));
            match total {
                DrainResult::Complete(t) => {
                    assert(rec_views(features@) + Seq::<Seq<u8>>::empty() =~= rec_views(
                        features@,
                    ));
                },
                DrainResult::Faulted(_, _) => {},
            }
        }
        Ok(features)
    }

    /// Signal that no more bytes will be provided.  Returns the one final
    /// complete feature still sitting in the buffer, when the decoder was
    /// still expecting a feature and the buffer holds a complete parsable
    /// object; nothing in every other state.  The decoder itself is left
    /// unchanged.
    pub fn finish(&mut self) -> (r: Result<Vec<FeatureRecord>, SpatialFormatReadError>)
        ensures
            final(self).state == old(self).state,
            final(self).buffer@ == old(self).buffer@,
            final(self).source@ == old(self).source@,
            final(self).features_decoded == old(self).features_decoded,
            match finish_step(old(self).state, old(self).buffer@) {
                FinishOut::Nothing => r matches Ok(v) && v@.len() == 0,
                FinishOut::One(span) => r matches Ok(v) && v@.len() == 1 && v@[0]@ == span
                    && feature_parses(span),
                FinishOut::Fault(f) => r matches Err(e) && fault_error(f, e, old(self).source@),
            },
    {
        match self.state {
            ParserState::ExpectingFeature => {
                match self.try_parse_feature() {
                    Ok(Some((record, _consumed))) => {
                        let mut v: Vec<FeatureRecord> = Vec::new();
                        v.push(record);
                        Ok(v)
                    },
                    Ok(None) => Ok(Vec::new()),
                    Err(e) => Err(e),
                }
            },
            _ => Ok(Vec::new()),
        }
    }
}

} // verus!

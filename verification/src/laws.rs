//! The decoder's laws.
//!
//! The central one is independence from chunking: feeding a document to the
//! decoder in any pieces whatsoever yields the same ordered sequence of
//! feature spans, the same final state and the same leftover buffer as
//! feeding it whole — stated twice, once for aligned chunk boundaries on
//! documents of any size, and once for arbitrary boundaries (mid-character
//! splits included) on documents within the buffering cap.  The others state
//! the extractor's exactness on well-formed objects and its safety on
//! truncated input, the header scan's tolerance of whitespace, and the
//! enforcement of the buffering cap.

use vstd::prelude::*;

verus! {

use crate::model::{
    decode_step, drain, drain_out, features_key, header_end, lemma_drain_consumed,
    lemma_drain_consumed_ascii, lemma_drain_extend, lemma_drain_fault_extend, lemma_header_extend,
    lemma_header_fault_first, lemma_step_consumed, DecodeFault, DrainOut, DrainResult,
    ParserState, StreamStep, MAX_BUFFER_SIZE,
};
use crate::scan::{
    find_pat, first_pat_at, is_json_ws, lemma_find_pat, lemma_obj_end_bounds, lemma_obj_end_take,
    lemma_ws_count_exact, obj_end, obj_end_from, pat_at, scan_completes, scan_init, scan_step,
    ws_count, ScanState,
};
use crate::utf8check::lemma_ascii_boundary;
use vstd::utf8::valid_utf8;

/// The concatenation of the first `j` chunks.
pub open spec fn concat_upto(chunks: Seq<Seq<u8>>, j: int) -> Seq<u8>
    decreases j,
{
    if j <= 0 {
        Seq::empty()
    } else {
        concat_upto(chunks, j - 1) + chunks[j - 1]
    }
}

/// The whole input, as the concatenation of all its chunks.
pub open spec fn concat_all(chunks: Seq<Seq<u8>>) -> Seq<u8> {
    concat_upto(chunks, chunks.len() as int)
}

/// Every cumulative chunk boundary falls on a UTF-8 character boundary of
/// the document: each concatenated prefix decodes as UTF-8 on its own.
pub open spec fn boundaries_align(chunks: Seq<Seq<u8>>) -> bool {
    forall|j: int| 0 <= j <= chunks.len() ==> valid_utf8(#[trigger] concat_upto(chunks, j))
}

/// The observable state of a decoder after a sequence of feed calls: its
/// phase, its unconsumed buffer, and every feature span emitted so far.
pub ghost struct RunState {
    pub state: ParserState,
    pub buffer: Seq<u8>,
    pub spans: Seq<Seq<u8>>,
}

/// Feed the chunks to a fresh decoder one at a time, draining after each;
/// `None` when some feed faults.
pub open spec fn run_chunks(chunks: Seq<Seq<u8>>) -> Option<RunState>
    decreases chunks.len(),
{
    if chunks.len() == 0 {
        Some(
            RunState {
                state: ParserState::ExpectingHeader,
                buffer: Seq::empty(),
                spans: Seq::empty(),
            },
        )
    } else {
        match run_chunks(chunks.drop_last()) {
            None => None,
            Some(rs) => {
                let b = rs.buffer + chunks.last();
                match drain(rs.state, b) {
                    DrainResult::Complete(o) => Some(
                        RunState {
                            state: o.state,
                            buffer: b.skip(o.consumed),
                            spans: rs.spans + o.spans,
                        },
                    ),
                    DrainResult::Faulted(_, _) => None,
                }
            },
        }
    }
}

/// Each concatenated prefix is a prefix of the whole document.
proof fn lemma_concat_is_prefix(chunks: Seq<Seq<u8>>, j: int)
    requires
        0 <= j <= chunks.len(),
    ensures
        concat_upto(chunks, j).len() <= concat_all(chunks).len(),
        concat_upto(chunks, j) == concat_all(chunks).take(concat_upto(chunks, j).len() as int),
    decreases chunks.len() - j,
{
    let doc = concat_all(chunks);
    if j == chunks.len() {
        assert(doc.take(doc.len() as int) =~= doc);
    } else {
        lemma_concat_is_prefix(chunks, j + 1);
        let a = concat_upto(chunks, j);
        let b = concat_upto(chunks, j + 1);
        assert(b == a + chunks[j]);
        assert(b.take(a.len() as int) =~= a);
        assert(doc.take(b.len() as int).take(a.len() as int) =~= doc.take(a.len() as int));
    }
}

/// A drain that ends back in the header phase never advanced: the decoder
/// starts there and never returns there.
proof fn lemma_header_state_initial(st: ParserState, b: Seq<u8>)
    requires
        drain(st, b) matches DrainResult::Complete(o) && o.state == ParserState::ExpectingHeader,
    ensures
        st == ParserState::ExpectingHeader,
        drain_out(drain(st, b)).consumed == 0,
        drain_out(drain(st, b)).spans == Seq::<Seq<u8>>::empty(),
    decreases b.len(),
{
    match decode_step(st, b) {
        StreamStep::Stall => {},
        StreamStep::Fault(_) => {},
        StreamStep::Advance { next, consumed, span } => {
            lemma_step_consumed(st, b);
            lemma_header_state_initial(next, b.skip(consumed));
            assert(next != ParserState::ExpectingHeader);
        },
    }
}

/// A chunked feed never raises the header fault when the header is
/// resolvable within the cap window.
proof fn lemma_no_header_fault(doc: Seq<u8>, prev: Seq<u8>, ck: Seq<u8>, pre: Seq<u8>)
    requires
        pre == prev + ck,
        valid_utf8(pre),
        pre == doc.take(pre.len() as int),
        pre.len() <= doc.len(),
        doc.len() > MAX_BUFFER_SIZE ==> header_end(doc.take(MAX_BUFFER_SIZE + 1)) is Some,
        drain(ParserState::ExpectingHeader, prev) is Complete,
    ensures
        ({
            let o = drain_out(drain(ParserState::ExpectingHeader, prev));
            !(drain(o.state, prev.skip(o.consumed) + ck) matches DrainResult::Faulted(_, f) && f
                == DecodeFault::HeaderNotFound)
        }),
{
    let o_prev = drain_out(drain(ParserState::ExpectingHeader, prev));
    let b = prev.skip(o_prev.consumed) + ck;
    if !(drain(o_prev.state, b) matches DrainResult::Faulted(_, f) && f
        == DecodeFault::HeaderNotFound) {
        return;
    }
    lemma_header_fault_first(o_prev.state, b);
    lemma_header_state_initial(ParserState::ExpectingHeader, prev);
    assert(b =~= pre);
    assert(!(valid_utf8(pre) && header_end(pre) is Some) && pre.len() > MAX_BUFFER_SIZE);
    assert(doc.len() > MAX_BUFFER_SIZE);
    assert(pre =~= doc.take(MAX_BUFFER_SIZE + 1) + pre.subrange(
        MAX_BUFFER_SIZE + 1,
        pre.len() as int,
    ));
    lemma_header_extend(
        doc.take(MAX_BUFFER_SIZE + 1),
        pre.subrange(MAX_BUFFER_SIZE + 1, pre.len() as int),
    );
}

/// A chunked feed never raises the malformed-feature fault when the whole
/// document drains without fault: such a fault would persist through the rest
/// of the document.
proof fn lemma_no_malformed_fault(doc: Seq<u8>, prev: Seq<u8>, ck: Seq<u8>, pre: Seq<u8>)
    requires
        pre == prev + ck,
        valid_utf8(doc),
        prev == doc.take(prev.len() as int),
        pre == doc.take(pre.len() as int),
        pre.len() <= doc.len(),
        drain(ParserState::ExpectingHeader, prev) is Complete,
        drain(ParserState::ExpectingHeader, doc) is Complete,
    ensures
        ({
            let o = drain_out(drain(ParserState::ExpectingHeader, prev));
            !(drain(o.state, prev.skip(o.consumed) + ck) matches DrainResult::Faulted(_, f) && f
                == DecodeFault::MalformedFeature)
        }),
{
    let o_prev = drain_out(drain(ParserState::ExpectingHeader, prev));
    let b = prev.skip(o_prev.consumed) + ck;
    if !(drain(o_prev.state, b) matches DrainResult::Faulted(_, f) && f
        == DecodeFault::MalformedFeature) {
        return;
    }
    let lprev = prev.len() as int;
    let lpre = pre.len() as int;
    let ext2 = doc.skip(lpre);
    lemma_drain_consumed(ParserState::ExpectingHeader, prev);
    assert(prev + doc.skip(lprev) =~= doc);
    lemma_drain_extend(ParserState::ExpectingHeader, prev, doc.skip(lprev));
    assert(doc.skip(lprev) =~= ck + ext2) by {
        assert forall|i: int| 0 <= i < doc.len() - lprev implies doc.skip(lprev)[i] == (ck
            + ext2)[i] by {
            if i < ck.len() {
                assert(doc[lprev + i] == pre[lprev + i]);
            }
        }
    }
    assert(prev.skip(o_prev.consumed) + doc.skip(lprev) =~= b + ext2);
    lemma_drain_consumed_ascii(ParserState::ExpectingHeader, prev);
    if o_prev.consumed == 0 {
        assert(b + ext2 =~= doc);
        assert(valid_utf8(b + ext2));
    } else {
        assert(doc[o_prev.consumed - 1] == prev[o_prev.consumed - 1]);
        lemma_ascii_boundary(doc, o_prev.consumed);
        assert(b + ext2 =~= doc.subrange(o_prev.consumed, doc.len() as int));
        assert(valid_utf8(b + ext2));
    }
    lemma_drain_fault_extend(o_prev.state, b, ext2);
    assert(drain(o_prev.state, b + ext2) is Faulted);
    assert(drain(ParserState::ExpectingHeader, doc) is Faulted);
}

/// Chunked decoding of any concatenated prefix of the document agrees with
/// draining that prefix whole: same spans, same state, same leftover buffer,
/// and no fault.
#[verifier::rlimit(100)]
proof fn lemma_run_prefix(chunks: Seq<Seq<u8>>, j: int)
    requires
        0 <= j <= chunks.len(),
        boundaries_align(chunks),
        concat_all(chunks).len() > MAX_BUFFER_SIZE ==> header_end(
            concat_all(chunks).take(MAX_BUFFER_SIZE + 1),
        ) is Some,
        drain(ParserState::ExpectingHeader, concat_all(chunks)) is Complete,
    ensures
        ({
            let pre = concat_upto(chunks, j);
            let d = drain(ParserState::ExpectingHeader, pre);
            d is Complete && (run_chunks(chunks.take(j)) matches Some(rs) && {
                let o = drain_out(d);
                rs.spans == o.spans && rs.state == o.state && rs.buffer == pre.skip(o.consumed)
            })
        }),
    decreases j,
{
    let doc = concat_all(chunks);
    let pre = concat_upto(chunks, j);
    if j == 0 {
        assert(chunks.take(0) =~= Seq::<Seq<u8>>::empty());
        assert(pre == Seq::<u8>::empty());
        assert(decode_step(ParserState::ExpectingHeader, pre) is Stall);
        assert(pre.skip(0) =~= pre);
    } else {
        lemma_run_prefix(chunks, j - 1);
        let prev = concat_upto(chunks, j - 1);
        let ck = chunks[j - 1];
        assert(pre == prev + ck);
        let d_prev = drain(ParserState::ExpectingHeader, prev);
        let o_prev = drain_out(d_prev);
        let rs_prev = run_chunks(chunks.take(j - 1))->Some_0;
        lemma_drain_consumed(ParserState::ExpectingHeader, prev);
        // the chunked feed of chunk j - 1:
        assert(valid_utf8(pre));
        lemma_drain_extend(ParserState::ExpectingHeader, prev, ck);
        let b = prev.skip(o_prev.consumed) + ck;
        assert(rs_prev.buffer + ck == b);
        let inner = drain(o_prev.state, b);
        // run_chunks(take(j)) unfolds onto run_chunks(take(j - 1)):
        assert(chunks.take(j).drop_last() =~= chunks.take(j - 1));
        assert(chunks.take(j).last() == ck);
        match inner {
            DrainResult::Complete(o2) => {
                lemma_drain_consumed(o_prev.state, b);
                assert(pre.skip(o_prev.consumed) =~= b);
                assert(pre.skip(o_prev.consumed + o2.consumed) =~= b.skip(o2.consumed));
            },
            DrainResult::Faulted(o2, f) => {
                // A fault in the chunked feed is impossible; refute each kind.
                lemma_concat_is_prefix(chunks, j - 1);
                lemma_concat_is_prefix(chunks, j);
                assert(valid_utf8(doc)) by {
                    assert(concat_upto(chunks, chunks.len() as int) == doc);
                }
                if f == DecodeFault::HeaderNotFound {
                    lemma_no_header_fault(doc, prev, ck, pre);
                } else {
                    lemma_no_malformed_fault(doc, prev, ck, pre);
                }
                assert(false);
            },
        }
    }
}

/// LAW — independence from chunking.  Decoding a document in one piece and
/// decoding it split into arbitrary chunks (down to single bytes) yield the
/// same ordered sequence of feature spans, leave the decoder in the same
/// state with the same unconsumed buffer, and therefore also agree on what
/// finalization yields — provided every chunk boundary falls on a UTF-8
/// character boundary, the `"features"` header (if the document exceeds the
/// buffering cap at all) is resolvable within the first cap-plus-one bytes,
/// and the whole document drains without a fault.
///
/// Each call of the executable `decode` performs exactly one [`drain`] of
/// its buffer (see `decoder::decode_post`), so [`run_chunks`] is precisely
/// what a sequence of `decode` calls on a fresh decoder observes, and this
/// law carries over to it.  For documents within the buffering cap,
/// [`lemma_chunking_independence_under_cap`] drops the boundary-alignment
/// hypothesis altogether.
pub proof fn lemma_chunking_independence(chunks: Seq<Seq<u8>>)
    requires
        boundaries_align(chunks),
        concat_all(chunks).len() > MAX_BUFFER_SIZE ==> header_end(
            concat_all(chunks).take(MAX_BUFFER_SIZE + 1),
        ) is Some,
        drain(ParserState::ExpectingHeader, concat_all(chunks)) is Complete,
    ensures
        ({
            let doc = concat_all(chunks);
            let o = drain_out(drain(ParserState::ExpectingHeader, doc));
            run_chunks(chunks) matches Some(rs) && rs.spans == o.spans && rs.state == o.state
                && rs.buffer == doc.skip(o.consumed)
        }),
{
    lemma_run_prefix(chunks, chunks.len() as int);
    assert(chunks.take(chunks.len() as int) =~= chunks);
}

/// Within the buffering cap no drain can fault: both fault conditions
/// require a buffer longer than the cap.
proof fn lemma_no_fault_under_cap(st: ParserState, b: Seq<u8>)
    requires
        b.len() <= MAX_BUFFER_SIZE,
    ensures
        drain(st, b) is Complete,
    decreases b.len(),
{
    lemma_step_consumed(st, b);
    match decode_step(st, b) {
        StreamStep::Stall => {},
        StreamStep::Fault(_) => {},
        StreamStep::Advance { next, consumed, span } => {
            lemma_no_fault_under_cap(next, b.skip(consumed));
        },
    }
}

/// Feeding a buffer that does not decode as UTF-8 is, within the cap, a
/// no-op: every phase stalls for more input.
proof fn lemma_invalid_buffer_stalls(st: ParserState, b: Seq<u8>)
    requires
        !valid_utf8(b),
        b.len() <= MAX_BUFFER_SIZE,
    ensures
        drain(st, b) == DrainResult::Complete(
            DrainOut { spans: Seq::<Seq<u8>>::empty(), state: st, consumed: 0 },
        ),
{
    assert(decode_step(st, b) is Stall);
}

/// The length of the longest cumulative prefix through the first `j` chunks
/// that decodes as UTF-8 on its own.
pub open spec fn last_valid_len(chunks: Seq<Seq<u8>>, j: int) -> int
    decreases j,
{
    if j <= 0 {
        0
    } else if valid_utf8(concat_upto(chunks, j)) {
        concat_upto(chunks, j).len() as int
    } else {
        last_valid_len(chunks, j - 1)
    }
}

/// The longest valid cumulative prefix is a valid prefix of the document, no
/// longer than the prefix through `j`.
proof fn lemma_last_valid(chunks: Seq<Seq<u8>>, j: int)
    requires
        0 <= j <= chunks.len(),
    ensures
        0 <= last_valid_len(chunks, j) <= concat_upto(chunks, j).len(),
        valid_utf8(concat_all(chunks).take(last_valid_len(chunks, j))),
    decreases j,
{
    let doc = concat_all(chunks);
    if j == 0 {
        assert(doc.take(0) =~= Seq::<u8>::empty());
    } else if valid_utf8(concat_upto(chunks, j)) {
        lemma_concat_is_prefix(chunks, j);
    } else {
        lemma_last_valid(chunks, j - 1);
        lemma_concat_is_prefix(chunks, j - 1);
        lemma_concat_is_prefix(chunks, j);
        assert(concat_upto(chunks, j - 1).len() <= concat_upto(chunks, j).len());
    }
}

/// The consumed prefix of a drained valid buffer is itself valid UTF-8.
proof fn lemma_consumed_prefix_valid(doc: Seq<u8>, lv: int)
    requires
        0 <= lv <= doc.len(),
        valid_utf8(doc.take(lv)),
    ensures
        ({
            let c = drain_out(drain(ParserState::ExpectingHeader, doc.take(lv))).consumed;
            &&& 0 <= c <= lv
            &&& valid_utf8(doc.take(c))
        }),
{
    let b = doc.take(lv);
    lemma_drain_consumed(ParserState::ExpectingHeader, b);
    lemma_drain_consumed_ascii(ParserState::ExpectingHeader, b);
    let c = drain_out(drain(ParserState::ExpectingHeader, b)).consumed;
    if c == 0 {
        assert(doc.take(0) =~= Seq::<u8>::empty());
    } else {
        lemma_ascii_boundary(b, c);
        assert(b.subrange(0, c) =~= doc.take(c));
    }
}

/// One valid-boundary feed of an under-cap document: the drain of the new
/// buffer continues the drain of the previous valid prefix to the drain of
/// the new prefix, and nothing faults.
proof fn lemma_under_cap_step_valid(doc: Seq<u8>, lv_prev: int, pre: Seq<u8>)
    requires
        valid_utf8(pre),
        pre == doc.take(pre.len() as int),
        pre.len() <= doc.len(),
        doc.len() <= MAX_BUFFER_SIZE,
        0 <= lv_prev <= pre.len(),
        valid_utf8(doc.take(lv_prev)),
    ensures
        ({
            let o = drain_out(drain(ParserState::ExpectingHeader, doc.take(lv_prev)));
            let inner = drain(o.state, pre.skip(o.consumed));
            let t = drain_out(drain(ParserState::ExpectingHeader, pre));
            &&& drain(ParserState::ExpectingHeader, pre) is Complete
            &&& inner is Complete
            &&& t.spans == o.spans + drain_out(inner).spans
            &&& t.state == drain_out(inner).state
            &&& t.consumed == o.consumed + drain_out(inner).consumed
        }),
{
    let prev_buf = doc.take(lv_prev);
    lemma_no_fault_under_cap(ParserState::ExpectingHeader, prev_buf);
    lemma_no_fault_under_cap(ParserState::ExpectingHeader, pre);
    let o = drain_out(drain(ParserState::ExpectingHeader, prev_buf));
    lemma_drain_consumed(ParserState::ExpectingHeader, prev_buf);
    let ext = doc.subrange(lv_prev, pre.len() as int);
    assert(prev_buf + ext =~= pre);
    lemma_drain_extend(ParserState::ExpectingHeader, prev_buf, ext);
    assert(prev_buf.skip(o.consumed) + ext =~= pre.skip(o.consumed));
    lemma_no_fault_under_cap(o.state, pre.skip(o.consumed));
}

/// One character-splitting feed of an under-cap document: the new buffer does
/// not decode as UTF-8, so the feed is a no-op.
proof fn lemma_under_cap_step_invalid(doc: Seq<u8>, lv_prev: int, pre: Seq<u8>)
    requires
        !valid_utf8(pre),
        pre == doc.take(pre.len() as int),
        pre.len() <= doc.len(),
        doc.len() <= MAX_BUFFER_SIZE,
        0 <= lv_prev <= pre.len(),
        valid_utf8(doc.take(lv_prev)),
    ensures
        ({
            let o = drain_out(drain(ParserState::ExpectingHeader, doc.take(lv_prev)));
            drain(o.state, pre.skip(o.consumed)) == DrainResult::Complete(
                DrainOut { spans: Seq::<Seq<u8>>::empty(), state: o.state, consumed: 0 },
            )
        }),
{
    lemma_consumed_prefix_valid(doc, lv_prev);
    let o = drain_out(drain(ParserState::ExpectingHeader, doc.take(lv_prev)));
    let c = o.consumed;
    assert(!valid_utf8(pre.skip(c))) by {
        if valid_utf8(pre.skip(c)) {
            vstd::utf8::valid_utf8_concat(doc.take(c), pre.skip(c));
            assert(doc.take(c) + pre.skip(c) =~= pre);
        }
    }
    lemma_invalid_buffer_stalls(o.state, pre.skip(c));
}

/// Chunked decoding of any prefix of an under-cap document agrees with
/// draining the longest valid cumulative prefix whole; feeds whose buffers
/// split a character are no-ops.
proof fn lemma_run_prefix_under_cap(chunks: Seq<Seq<u8>>, j: int)
    requires
        0 <= j <= chunks.len(),
        valid_utf8(concat_all(chunks)),
        concat_all(chunks).len() <= MAX_BUFFER_SIZE,
    ensures
        ({
            let doc = concat_all(chunks);
            let pre = concat_upto(chunks, j);
            let lv = last_valid_len(chunks, j);
            let d = drain(ParserState::ExpectingHeader, doc.take(lv));
            d is Complete && (run_chunks(chunks.take(j)) matches Some(rs) && {
                let o = drain_out(d);
                &&& rs.spans == o.spans
                &&& rs.state == o.state
                &&& rs.buffer == pre.skip(o.consumed)
                &&& 0 <= o.consumed <= lv
            })
        }),
    decreases j,
{
    let doc = concat_all(chunks);
    let pre = concat_upto(chunks, j);
    let lv = last_valid_len(chunks, j);
    lemma_last_valid(chunks, j);
    lemma_concat_is_prefix(chunks, j);
    lemma_no_fault_under_cap(ParserState::ExpectingHeader, doc.take(lv));
    lemma_drain_consumed(ParserState::ExpectingHeader, doc.take(lv));
    if j == 0 {
        assert(chunks.take(0) =~= Seq::<Seq<u8>>::empty());
        assert(pre == Seq::<u8>::empty());
        assert(doc.take(0) =~= Seq::<u8>::empty());
        assert(decode_step(ParserState::ExpectingHeader, Seq::<u8>::empty()) is Stall);
        assert(pre.skip(0) =~= pre);
    } else {
        lemma_run_prefix_under_cap(chunks, j - 1);
        let prev = concat_upto(chunks, j - 1);
        let ck = chunks[j - 1];
        let lv_prev = last_valid_len(chunks, j - 1);
        lemma_last_valid(chunks, j - 1);
        lemma_concat_is_prefix(chunks, j - 1);
        assert(pre == prev + ck);
        let o_prev = drain_out(drain(ParserState::ExpectingHeader, doc.take(lv_prev)));
        let c = o_prev.consumed;
        let rs_prev = run_chunks(chunks.take(j - 1))->Some_0;
        assert(rs_prev.buffer + ck =~= pre.skip(c)) by {
            assert(prev == doc.take(prev.len() as int));
            assert(rs_prev.buffer == prev.skip(c));
            assert(prev.skip(c) + ck =~= (prev + ck).skip(c));
        }
        // run_chunks(take(j)) unfolds onto run_chunks(take(j - 1)):
        assert(chunks.take(j).drop_last() =~= chunks.take(j - 1));
        assert(chunks.take(j).last() == ck);
        if valid_utf8(pre) {
            assert(lv == pre.len());
            assert(doc.take(lv) =~= pre);
            lemma_under_cap_step_valid(doc, lv_prev, pre);
            let inner = drain(o_prev.state, pre.skip(c));
            match inner {
                DrainResult::Complete(o2) => {
                    lemma_drain_consumed(o_prev.state, pre.skip(c));
                    assert(pre.skip(c + o2.consumed) =~= pre.skip(c).skip(o2.consumed));
                },
                DrainResult::Faulted(_, _) => {},
            }
        } else {
            assert(lv == lv_prev);
            lemma_under_cap_step_invalid(doc, lv_prev, pre);
            assert(rs_prev.spans + Seq::<Seq<u8>>::empty() =~= rs_prev.spans);
            assert(pre.skip(c).skip(0) =~= pre.skip(c));
        }
    }
}

/// LAW — independence from chunking, for documents within the buffering cap,
/// under arbitrary chunk boundaries.  When the whole document decodes as
/// UTF-8 and is no longer than the cap, the boundaries may fall anywhere —
/// a chunk may split a multi-byte character, and the decoder recovers by
/// stalling on the torn buffer until the character completes — and the
/// chunked run still yields the same ordered sequence of feature spans, the
/// same final state and the same leftover buffer as feeding the document
/// whole.  No fault can fire below the cap, so this law needs no further
/// hypotheses.  (Beyond the cap a boundary that splits a character past the
/// cap mark can genuinely raise the header fault where aligned chunking
/// would not; the law above therefore asks for aligned boundaries.)
pub proof fn lemma_chunking_independence_under_cap(chunks: Seq<Seq<u8>>)
    requires
        valid_utf8(concat_all(chunks)),
        concat_all(chunks).len() <= MAX_BUFFER_SIZE,
    ensures
        ({
            let doc = concat_all(chunks);
            let o = drain_out(drain(ParserState::ExpectingHeader, doc));
            run_chunks(chunks) matches Some(rs) && rs.spans == o.spans && rs.state == o.state
                && rs.buffer == doc.skip(o.consumed)
        }),
{
    let doc = concat_all(chunks);
    let n = chunks.len() as int;
    lemma_run_prefix_under_cap(chunks, n);
    assert(chunks.take(n) =~= chunks);
    assert(last_valid_len(chunks, n) == doc.len());
    assert(doc.take(doc.len() as int) =~= doc);
}

/// LAW — balanced-brace extraction is truncation-safe and stable.  When the
/// scanner finds a complete object end `j`, that end is the first possible
/// one: every shorter truncation of the text reports "incomplete", every
/// longer truncation and every extension reports the same `j`, and the byte
/// at `j - 1` is the closing `}`.  When it finds none, every truncation also
/// finds none — a truncated object is never answered wrongly.
pub proof fn lemma_extractor_balance(b: Seq<u8>)
    ensures
        obj_end(b) matches Some(j) ==> {
            &&& 0 < j <= b.len()
            &&& b[j - 1] == 0x7d
            &&& forall|k: int| 0 <= k < j ==> obj_end(#[trigger] b.take(k)) is None
            &&& forall|k: int| j <= k <= b.len() ==> obj_end(#[trigger] b.take(k)) == Some(j)
            &&& forall|ext: Seq<u8>| obj_end(#[trigger] (b + ext)) == Some(j)
        },
        obj_end(b) is None ==> forall|k: int|
            0 <= k <= b.len() ==> obj_end(#[trigger] b.take(k)) is None,
{
    match obj_end(b) {
        Some(j) => {
            lemma_obj_end_bounds(b, 0, scan_init());
            assert forall|k: int| 0 <= k <= b.len() implies obj_end(b.take(k)) == (if j <= k {
                Some(j)
            } else {
                None::<int>
            }) by {
                lemma_obj_end_take(b, k, 0, scan_init());
            }
            assert forall|ext: Seq<u8>| obj_end(#[trigger] (b + ext)) == Some(j) by {
                crate::scan::lemma_obj_end_extend(b, ext, 0, scan_init(), j);
            }
        },
        None => {
            assert forall|k: int| 0 <= k <= b.len() implies obj_end(b.take(k)) is None by {
                lemma_obj_end_take(b, k, 0, scan_init());
            }
        },
    }
}

/// True when every byte of `w` is JSON whitespace.
pub open spec fn all_json_ws(w: Seq<u8>) -> bool {
    forall|i: int| 0 <= i < w.len() ==> is_json_ws(#[trigger] w[i])
}

/// A whitespace run followed by a non-whitespace byte has its exact length as
/// whitespace count.
proof fn lemma_ws_count_concat(w: Seq<u8>, rest: Seq<u8>)
    requires
        all_json_ws(w),
        rest.len() == 0 || !is_json_ws(rest[0]),
    ensures
        ws_count(w + rest) == w.len(),
    decreases w.len(),
{
    if w.len() == 0 {
        assert(w + rest =~= rest);
        if rest.len() > 0 {
            assert(ws_count(rest) == 0);
        }
    } else {
        assert(is_json_ws((w + rest)[0]));
        assert((w + rest).skip(1) =~= w.skip(1) + rest);
        assert(all_json_ws(w.skip(1)));
        lemma_ws_count_concat(w.skip(1), rest);
    }
}

/// LAW — header tolerance.  Whatever whitespace stands around the colon and
/// before the bracket, the header scan leaves the buffer exactly after the
/// `[`: for any text in which the quoted key `"features"` first occurs right
/// after `prefix`, followed by whitespace, `:`, whitespace, and `[`, the
/// header ends at the end of that text.
#[verifier::rlimit(100)]
pub proof fn lemma_header_tolerance(prefix: Seq<u8>, ws1: Seq<u8>, ws2: Seq<u8>)
    requires
        all_json_ws(ws1),
        all_json_ws(ws2),
        first_pat_at(
            prefix + features_key() + ws1 + seq![0x3au8] + ws2 + seq![0x5bu8],
            features_key(),
            prefix.len() as int,
        ),
    ensures
        ({
            let whole = prefix + features_key() + ws1 + seq![0x3au8] + ws2 + seq![0x5bu8];
            header_end(whole) == Some(whole.len() as int)
        }),
{
    let whole = prefix + features_key() + ws1 + seq![0x3au8] + ws2 + seq![0x5bu8];
    lemma_find_pat(whole, features_key());
    lemma_header_structure(prefix, ws1, ws2);
}

/// The structural half of header tolerance: with the first occurrence of
/// the key known, the whitespace runs, the colon and the bracket stand at
/// fixed offsets.
proof fn lemma_header_shape(b: Seq<u8>, f: int, w1: int, w2: int)
    requires
        w1 >= 0,
        w2 >= 0,
        find_pat(b, features_key()) == Some(f),
        f >= 0,
        f + 10 + w1 + 1 + w2 + 1 == b.len(),
        forall|i: int| f + 10 <= i < f + 10 + w1 ==> is_json_ws(#[trigger] b[i]),
        b[f + 10 + w1] == 0x3a,
        forall|i: int| f + 11 + w1 <= i < f + 11 + w1 + w2 ==> is_json_ws(#[trigger] b[i]),
        b[b.len() - 1] == 0x5b,
    ensures
        header_end(b) == Some(b.len() as int),
{
    let s1 = b.skip(f + 10);
    assert forall|j: int| 0 <= j < w1 implies is_json_ws(#[trigger] s1[j]) by {
        assert(s1[j] == b[f + 10 + j]);
    }
    assert(s1[w1] == b[f + 10 + w1]);
    assert(!is_json_ws(s1[w1]));
    lemma_ws_count_exact(s1, w1);
    let i = f + 10 + w1;
    let s2 = b.skip(i + 1);
    assert forall|j: int| 0 <= j < w2 implies is_json_ws(#[trigger] s2[j]) by {
        assert(s2[j] == b[i + 1 + j]);
    }
    assert(s2[w2] == b[i + 1 + w2]);
    assert(b[i + 1 + w2] == b[b.len() - 1]);
    assert(!is_json_ws(s2[w2]));
    lemma_ws_count_exact(s2, w2);
}

/// The structural half of header tolerance over the concatenated shape.
proof fn lemma_header_structure(prefix: Seq<u8>, ws1: Seq<u8>, ws2: Seq<u8>)
    requires
        all_json_ws(ws1),
        all_json_ws(ws2),
        find_pat(
            prefix + features_key() + ws1 + seq![0x3au8] + ws2 + seq![0x5bu8],
            features_key(),
        ) == Some(prefix.len() as int),
    ensures
        ({
            let whole = prefix + features_key() + ws1 + seq![0x3au8] + ws2 + seq![0x5bu8];
            header_end(whole) == Some(whole.len() as int)
        }),
{
    let key = features_key();
    let whole = prefix + key + ws1 + seq![0x3au8] + ws2 + seq![0x5bu8];
    let p = prefix.len() as int;
    let w1 = ws1.len() as int;
    let w2 = ws2.len() as int;
    assert(key.len() == 10);
    assert(whole.len() == p + 10 + w1 + 1 + w2 + 1);
    assert forall|i: int| p + 10 <= i < p + 10 + w1 implies is_json_ws(#[trigger] whole[i]) by {
        assert(whole[i] == ws1[i - (p + 10)]);
    }
    assert(whole[p + 10 + w1] == seq![0x3au8][0]);
    assert forall|i: int|
        p + 11 + w1 <= i < p + 11 + w1 + w2 implies is_json_ws(#[trigger] whole[i]) by {
        assert(whole[i] == ws2[i - (p + 11 + w1)]);
    }
    assert(whole[whole.len() - 1] == seq![0x5bu8][0]);
    lemma_header_shape(whole, p, w1, w2);
}


/// LAW — cap enforcement.  A buffer longer than the cap in which the quoted
/// key `"features"` occurs nowhere makes the decoder fail at once with the
/// header fault: it does not buffer indefinitely, consumes nothing, and
/// yields nothing.
pub proof fn lemma_cap_enforcement(b: Seq<u8>)
    requires
        forall|i: int| !pat_at(b, features_key(), i),
        b.len() > MAX_BUFFER_SIZE,
    ensures
        decode_step(ParserState::ExpectingHeader, b) == StreamStep::Fault(
            DecodeFault::HeaderNotFound,
        ),
        drain(ParserState::ExpectingHeader, b) == DrainResult::Faulted(
            DrainOut {
                spans: Seq::<Seq<u8>>::empty(),
                state: ParserState::ExpectingHeader,
                consumed: 0,
            },
            DecodeFault::HeaderNotFound,
        ),
{
    lemma_find_pat(b, features_key());
}


/// A well-formed JSON text fragment, by structure: a string literal's inner
/// bytes, one non-structural byte, nothing, two fragments in a row, or a
/// braced object around a fragment.  Every well-formed JSON object — nested
/// objects, strings holding literal braces and escaped quotes included — is
/// the text of some `Obj` fragment.
pub ghost enum JsonFragment {
    /// The inner bytes of a string literal (between its quotes).
    Str(Seq<u8>),
    /// One byte that is not a quote and not a brace.
    Byte(u8),
    /// The empty text.
    Nothing,
    /// One fragment followed by another.
    Pair(Box<JsonFragment>, Box<JsonFragment>),
    /// `{`, a fragment, `}`.
    Obj(Box<JsonFragment>),
}

/// Inner bytes of a well-formed string literal: a backslash always escapes
/// one following byte, and an unescaped quote never occurs.
pub open spec fn wf_string_body(s: Seq<u8>) -> bool
    decreases s.len(),
{
    if s.len() == 0 {
        true
    } else if s[0] == 0x5c {
        s.len() >= 2 && wf_string_body(s.skip(2))
    } else {
        s[0] != 0x22 && wf_string_body(s.skip(1))
    }
}

/// Well-formedness of a fragment.
pub open spec fn wf_fragment(t: JsonFragment) -> bool
    decreases t,
{
    match t {
        JsonFragment::Str(s) => wf_string_body(s),
        JsonFragment::Byte(c) => c != 0x22 && c != 0x7b && c != 0x7d,
        JsonFragment::Nothing => true,
        JsonFragment::Pair(a, b) => wf_fragment(*a) && wf_fragment(*b),
        JsonFragment::Obj(inner) => wf_fragment(*inner),
    }
}

/// The text of a fragment.
pub open spec fn fragment_text(t: JsonFragment) -> Seq<u8>
    decreases t,
{
    match t {
        JsonFragment::Str(s) => seq![0x22u8] + s + seq![0x22u8],
        JsonFragment::Byte(c) => seq![c],
        JsonFragment::Nothing => Seq::empty(),
        JsonFragment::Pair(a, b) => fragment_text(*a) + fragment_text(*b),
        JsonFragment::Obj(inner) => seq![0x7bu8] + fragment_text(*inner) + seq![0x7du8],
    }
}

/// Whether a fragment contains an object (and scanning it therefore marks
/// the scan as started).
pub open spec fn fragment_has_obj(t: JsonFragment) -> bool
    decreases t,
{
    match t {
        JsonFragment::Pair(a, b) => fragment_has_obj(*a) || fragment_has_obj(*b),
        JsonFragment::Obj(_) => true,
        _ => false,
    }
}

/// The scanner state after reading all of `b` from state `st`.
pub open spec fn scan_seq(st: ScanState, b: Seq<u8>) -> ScanState
    decreases b.len(),
{
    if b.len() == 0 {
        st
    } else {
        scan_seq(scan_step(st, b[0]), b.skip(1))
    }
}

/// No byte of `b` fires a completion when scanned from state `st`.
pub open spec fn scan_clean(st: ScanState, b: Seq<u8>) -> bool
    decreases b.len(),
{
    if b.len() == 0 {
        true
    } else {
        !scan_completes(st, b[0]) && scan_clean(scan_step(st, b[0]), b.skip(1))
    }
}

/// Scanning one byte is one step.
proof fn lemma_scan_one(st: ScanState, c: u8)
    ensures
        scan_seq(st, seq![c]) == scan_step(st, c),
        scan_clean(st, seq![c]) == !scan_completes(st, c),
{
    assert((seq![c])[0] == c);
    assert((seq![c]).skip(1) =~= Seq::<u8>::empty());
    assert(scan_seq(scan_step(st, c), Seq::<u8>::empty()) == scan_step(st, c));
    assert(scan_clean(scan_step(st, c), Seq::<u8>::empty()));
}

/// Scanning a concatenation is scanning one part after the other.
proof fn lemma_scan_concat(st: ScanState, a: Seq<u8>, b: Seq<u8>)
    ensures
        scan_seq(st, a + b) == scan_seq(scan_seq(st, a), b),
        scan_clean(st, a + b) == (scan_clean(st, a) && scan_clean(scan_seq(st, a), b)),
    decreases a.len(),
{
    if a.len() == 0 {
        assert(a + b =~= b);
    } else {
        assert((a + b).skip(1) =~= a.skip(1) + b);
        assert((a + b)[0] == a[0]);
        lemma_scan_concat(scan_step(st, a[0]), a.skip(1), b);
    }
}

/// A segment that completes nothing passes the object-end scan through: the
/// scan continues after it in the state the segment leaves behind.
proof fn lemma_scan_through(b: Seq<u8>, i: int, st: ScanState, seg: Seq<u8>)
    requires
        0 <= i,
        i + seg.len() <= b.len(),
        b.subrange(i, i + seg.len() as int) == seg,
        scan_clean(st, seg),
    ensures
        obj_end_from(b, i, st) == obj_end_from(b, i + seg.len() as int, scan_seq(st, seg)),
    decreases seg.len(),
{
    if seg.len() > 0 {
        assert(b[i] == seg[0]);
        assert(b.subrange(i + 1, i + seg.len() as int) =~= seg.skip(1));
        lemma_scan_through(b, i + 1, scan_step(st, seg[0]), seg.skip(1));
    }
}

/// Scanning a well-formed string body from inside the string completes
/// nothing and returns to the entering state.
proof fn lemma_string_body_scan(st: ScanState, s: Seq<u8>)
    requires
        wf_string_body(s),
        st.in_str,
        !st.esc,
    ensures
        scan_clean(st, s),
        scan_seq(st, s) == st,
    decreases s.len(),
{
    if s.len() > 0 {
        if s[0] == 0x5c {
            let st1 = scan_step(st, s[0]);
            assert(st1 == (ScanState { esc: true, ..st }));
            assert(s.skip(1)[0] == s[1]);
            let st2 = scan_step(st1, s[1]);
            assert(st2 == st);
            assert(s.skip(1).skip(1) =~= s.skip(2));
            lemma_string_body_scan(st, s.skip(2));
            assert(scan_clean(st1, s.skip(1)));
            assert(scan_seq(st1, s.skip(1)) == scan_seq(st, s.skip(2)));
        } else {
            assert(scan_step(st, s[0]) == st);
            lemma_string_body_scan(st, s.skip(1));
        }
    }
}

/// Scanning a well-formed fragment at positive depth completes nothing and
/// leaves the depth and string mode as they were, marking the scan started
/// when the fragment holds an object.
proof fn lemma_fragment_scan(t: JsonFragment, st: ScanState)
    requires
        wf_fragment(t),
        !st.in_str,
        !st.esc,
        st.depth >= 1,
    ensures
        scan_clean(st, fragment_text(t)),
        scan_seq(st, fragment_text(t)) == (ScanState {
            depth: st.depth,
            in_str: false,
            esc: false,
            started: st.started || fragment_has_obj(t),
        }),
    decreases t,
{
    match t {
        JsonFragment::Str(s) => {
            let quote = seq![0x22u8];
            let st1 = scan_step(st, 0x22);
            assert(st1 == (ScanState { in_str: true, ..st }));
            lemma_string_body_scan(st1, s);
            let st2 = scan_step(st1, 0x22);
            assert(st2 == (ScanState { in_str: false, ..st1 }));
            lemma_scan_one(st, 0x22);
            lemma_scan_one(st1, 0x22);
            lemma_scan_concat(st1, s, quote);
            lemma_scan_concat(st, quote, s + quote);
            assert(fragment_text(t) =~= quote + (s + quote));
            assert(st2 == (ScanState {
                depth: st.depth,
                in_str: false,
                esc: false,
                started: st.started || fragment_has_obj(t),
            }));
        },
        JsonFragment::Byte(c) => {
            assert(scan_step(st, c) == st);
            lemma_scan_one(st, c);
        },
        JsonFragment::Nothing => {},
        JsonFragment::Pair(a, b) => {
            lemma_fragment_scan(*a, st);
            let st1 = scan_seq(st, fragment_text(*a));
            lemma_fragment_scan(*b, st1);
            lemma_scan_concat(st, fragment_text(*a), fragment_text(*b));
        },
        JsonFragment::Obj(inner) => {
            let open = seq![0x7bu8];
            let close = seq![0x7du8];
            let body = fragment_text(*inner);
            let st1 = scan_step(st, 0x7b);
            assert(st1 == (ScanState { depth: st.depth + 1, started: true, ..st }));
            lemma_fragment_scan(*inner, st1);
            let st2 = scan_seq(st1, body);
            // the closing brace does not complete: the depth is still above one
            assert(st2.depth == st.depth + 1 >= 2);
            assert(!scan_completes(st2, 0x7d));
            let st3 = scan_step(st2, 0x7d);
            lemma_scan_one(st, 0x7b);
            lemma_scan_one(st2, 0x7d);
            lemma_scan_concat(st1, body, close);
            lemma_scan_concat(st, open, body + close);
            assert(fragment_text(t) =~= open + (body + close));
            assert(st3 == (ScanState {
                depth: st.depth,
                in_str: false,
                esc: false,
                started: st.started || fragment_has_obj(t),
            }));
        },
    }
}

/// LAW — the extractor is exact on well-formed objects.  For every
/// well-formed JSON object — nested objects, strings holding literal braces
/// and escaped quotes included — standing at the front of a text, the
/// extractor reports exactly the object's end: the consumed length is the
/// object's length, whatever follows it.  Minimality and truncation safety
/// then follow from `lemma_extractor_balance`.
pub proof fn lemma_extractor_exact(inner: JsonFragment, rest: Seq<u8>)
    requires
        wf_fragment(inner),
    ensures
        ({
            let obj = seq![0x7bu8] + fragment_text(inner) + seq![0x7du8];
            obj_end(obj + rest) == Some(obj.len() as int)
        }),
{
    let body = fragment_text(inner);
    let obj = seq![0x7bu8] + body + seq![0x7du8];
    let b = obj + rest;
    let st0 = scan_init();
    assert(b[0] == 0x7b);
    assert(!scan_completes(st0, 0x7b));
    let st1 = scan_step(st0, 0x7b);
    assert(st1 == (ScanState { depth: 1, in_str: false, esc: false, started: true }));
    assert(obj_end_from(b, 0, st0) == obj_end_from(b, 1, st1));
    lemma_fragment_scan(inner, st1);
    assert(b.subrange(1, 1 + body.len() as int) =~= body);
    lemma_scan_through(b, 1, st1, body);
    let st2 = scan_seq(st1, body);
    assert(st2.depth == 1 && !st2.in_str && !st2.esc && st2.started);
    assert(b[1 + body.len() as int] == 0x7d);
    assert(scan_completes(st2, 0x7d));
    assert(obj_end_from(b, 1 + body.len() as int, st2) == Some(obj.len() as int));
}

} // verus!

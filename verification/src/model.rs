//! The streaming decoder's mathematical model.
//!
//! The decoder is specified as a pure transition system over byte sequences:
//! [`decode_step`] gives the single step a buffer permits in a given parser
//! state (stall for more input, fail, or advance while consuming a prefix and
//! possibly emitting one feature span), and [`drain`] iterates it to a
//! stall, exactly as one call of the executable `decode` does.  The laws about
//! the decoder — above all that chunk boundaries do not change what is
//! emitted — are proved of this model, and the executable decoder is proved
//! to implement it.

use vstd::prelude::*;

verus! {

use crate::record::feature_parses;
use crate::scan::{
    find_pat, lemma_find_pat, lemma_first_pat_extend, lemma_obj_end_bounds, lemma_obj_end_extend,
    lemma_ws_count, lemma_ws_count_extend, obj_end, scan_init, ws_count,
};
use crate::utf8check::lemma_ascii_boundary;
use vstd::utf8::valid_utf8;

/// How much unconsumed input the decoder tolerates buffering while the next
/// token has not yet been resolved, before declaring the stream broken.
pub const MAX_BUFFER_SIZE: usize = 1024 * 1024;

/// The decoder's phase.  It only moves forward through
/// `ExpectingHeader → ExpectingFeature → ExpectingCommaOrClose →
/// {ExpectingFeature | Done}`, and `Done` is absorbing.
#[derive(Clone, Copy, Debug, PartialEq, Eq, Structural)]
pub enum ParserState {
    /// Scanning for the `"features"` key and its opening `[`.
    ExpectingHeader,
    /// Positioned before a feature object, whitespace, or the closing `]`.
    ExpectingFeature,
    /// Positioned after a feature, awaiting `,` or `]`.
    ExpectingCommaOrClose,
    /// The features array has been closed; no further features come.
    Done,
}

/// The two ways the decoder gives up on a stream.
#[derive(Clone, Copy, Debug, PartialEq, Eq, Structural)]
pub enum DecodeFault {
    /// The `"features"` array header was not found within the buffering cap.
    HeaderNotFound,
    /// A complete object was extracted but did not parse as a feature, and
    /// the buffer had already grown past the cap.
    MalformedFeature,
}

/// The bytes of the quoted key `"features"`.
pub open spec fn features_key() -> Seq<u8> {
    seq![0x22u8, 0x66u8, 0x65u8, 0x61u8, 0x74u8, 0x75u8, 0x72u8, 0x65u8, 0x73u8, 0x22u8]
}

/// Offset one past the `[` that opens the `"features"` array: after the first
/// occurrence of the quoted key there must follow optional whitespace, `:`,
/// optional whitespace, and `[`.  `None` while the buffer has not resolved
/// that much (or never will: the scan does not reconsider later occurrences
/// of the key).
pub open spec fn header_end(b: Seq<u8>) -> Option<int> {
    match find_pat(b, features_key()) {
        None => None,
        Some(f) => {
            let i = f + 10 + ws_count(b.skip(f + 10));
            if i >= b.len() {
                None
            } else if b[i] != 0x3a {
                None
            } else {
                let q = i + 1 + ws_count(b.skip(i + 1));
                if q >= b.len() {
                    None
                } else if b[q] == 0x5b {
                    Some(q + 1)
                } else {
                    None
                }
            }
        },
    }
}

/// What one buffer permits in one state: wait for more input, fail, or
/// advance, consuming `consumed` bytes off the front of the buffer and
/// emitting at most one feature span.
pub ghost enum StreamStep {
    /// More input is needed; nothing is consumed.
    Stall,
    /// The stream is broken; nothing is consumed.
    Fault(DecodeFault),
    /// A transition fires.
    Advance { next: ParserState, consumed: int, span: Option<Seq<u8>> },
}

/// The decoder's transition function.  The buffer is only interpreted as text
/// once it is valid UTF-8 as a whole; otherwise the decoder assumes a
/// multi-byte character was split across a chunk boundary and waits.
pub open spec fn decode_step(st: ParserState, b: Seq<u8>) -> StreamStep {
    match st {
        ParserState::ExpectingHeader => {
            if valid_utf8(b) && header_end(b) is Some {
                StreamStep::Advance {
                    next: ParserState::ExpectingFeature,
                    consumed: header_end(b)->Some_0,
                    span: None,
                }
            } else if b.len() > MAX_BUFFER_SIZE {
                StreamStep::Fault(DecodeFault::HeaderNotFound)
            } else {
                StreamStep::Stall
            }
        },
        ParserState::ExpectingFeature => {
            if !valid_utf8(b) {
                StreamStep::Stall
            } else {
                let w = ws_count(b);
                if w >= b.len() {
                    StreamStep::Stall
                } else if b[w] == 0x5d {
                    StreamStep::Advance { next: ParserState::Done, consumed: w + 1, span: None }
                } else {
                    match obj_end(b.skip(w)) {
                        None => StreamStep::Stall,
                        Some(e) => {
                            let span = b.subrange(w, w + e);
                            if feature_parses(span) {
                                StreamStep::Advance {
                                    next: ParserState::ExpectingCommaOrClose,
                                    consumed: w + e,
                                    span: Some(span),
                                }
                            } else if b.len() > MAX_BUFFER_SIZE {
                                StreamStep::Fault(DecodeFault::MalformedFeature)
                            } else {
                                StreamStep::Stall
                            }
                        },
                    }
                }
            }
        },
        ParserState::ExpectingCommaOrClose => {
            if !valid_utf8(b) {
                StreamStep::Stall
            } else {
                let w = ws_count(b);
                if w >= b.len() {
                    StreamStep::Stall
                } else if b[w] == 0x2c {
                    StreamStep::Advance {
                        next: ParserState::ExpectingFeature,
                        consumed: w + 1,
                        span: None,
                    }
                } else if b[w] == 0x5d {
                    StreamStep::Advance { next: ParserState::Done, consumed: w + 1, span: None }
                } else {
                    // Neither separator nor closer: wait, leniently, for more
                    // input; no cap is enforced on this path.
                    StreamStep::Stall
                }
            }
        },
        ParserState::Done => StreamStep::Stall,
    }
}

/// An advancing step consumes at least one byte and at most the buffer, and
/// the last byte consumed is one of the ASCII bytes `[`, `}`, `,`, `]`.
pub proof fn lemma_step_consumed(st: ParserState, b: Seq<u8>)
    ensures
        decode_step(st, b) matches StreamStep::Advance { consumed, .. } ==> 1 <= consumed
            <= b.len() && b[consumed - 1] < 0x80,
{
    lemma_ws_count(b);
    match st {
        ParserState::ExpectingHeader => {
            if valid_utf8(b) && header_end(b) is Some {
                lemma_find_pat(b, features_key());
                let f = find_pat(b, features_key())->Some_0;
                lemma_ws_count(b.skip(f + 10));
                let i = f + 10 + ws_count(b.skip(f + 10));
                lemma_ws_count(b.skip(i + 1));
            }
        },
        ParserState::ExpectingFeature => {
            if valid_utf8(b) {
                let w = ws_count(b);
                if w < b.len() && b[w] != 0x5d {
                    if obj_end(b.skip(w)) is Some {
                        lemma_obj_end_bounds(b.skip(w), 0, scan_init());
                    }
                }
            }
        },
        ParserState::ExpectingCommaOrClose => {},
        ParserState::Done => {},
    }
}

/// What one call of `decode` does to a buffer: the spans emitted, the state
/// reached, and how many bytes were consumed off the front.
pub ghost struct DrainOut {
    pub spans: Seq<Seq<u8>>,
    pub state: ParserState,
    pub consumed: int,
}

/// The outcome of draining a buffer: it either comes to rest waiting for more
/// input, or hits a fault after some progress.
pub ghost enum DrainResult {
    Complete(DrainOut),
    Faulted(DrainOut, DecodeFault),
}

/// Iterate `decode_step` until the buffer stalls, fails, or is exhausted,
/// collecting the emitted feature spans in order.
pub open spec fn drain(st: ParserState, b: Seq<u8>) -> DrainResult
    decreases b.len(),
    via drain_dec
{
    match decode_step(st, b) {
        StreamStep::Stall => DrainResult::Complete(
            DrainOut { spans: Seq::empty(), state: st, consumed: 0 },
        ),
        StreamStep::Fault(f) => DrainResult::Faulted(
            DrainOut { spans: Seq::empty(), state: st, consumed: 0 },
            f,
        ),
        StreamStep::Advance { next, consumed, span } => {
            let pre: Seq<Seq<u8>> = match span {
                Some(s) => seq![s],
                None => Seq::empty(),
            };
            match drain(next, b.skip(consumed)) {
                DrainResult::Complete(o) => DrainResult::Complete(
                    DrainOut {
                        spans: pre + o.spans,
                        state: o.state,
                        consumed: consumed + o.consumed,
                    },
                ),
                DrainResult::Faulted(o, f) => DrainResult::Faulted(
                    DrainOut {
                        spans: pre + o.spans,
                        state: o.state,
                        consumed: consumed + o.consumed,
                    },
                    f,
                ),
            }
        },
    }
}

#[via_fn]
proof fn drain_dec(st: ParserState, b: Seq<u8>) {
    lemma_step_consumed(st, b);
}

/// The output of a drain, whichever way it ended.
pub open spec fn drain_out(r: DrainResult) -> DrainOut {
    match r {
        DrainResult::Complete(o) => o,
        DrainResult::Faulted(o, _) => o,
    }
}

/// A drain consumes at most the buffer, and never a negative amount.
pub proof fn lemma_drain_consumed(st: ParserState, b: Seq<u8>)
    ensures
        0 <= drain_out(drain(st, b)).consumed <= b.len(),
    decreases b.len(),
{
    lemma_step_consumed(st, b);
    match decode_step(st, b) {
        StreamStep::Stall => {},
        StreamStep::Fault(_) => {},
        StreamStep::Advance { next, consumed, span } => {
            lemma_drain_consumed(next, b.skip(consumed));
        },
    }
}

/// The spans one optional emitted span contributes.
pub open spec fn spans_opt(sp: Option<Seq<u8>>) -> Seq<Seq<u8>> {
    match sp {
        Some(s) => seq![s],
        None => Seq::empty(),
    }
}

/// A drain of the whole input decomposes into work already done (spans
/// emitted, bytes consumed) plus the drain of the remaining buffer, of the
/// same kind and with the same fault, if any.
pub open spec fn drain_decomposes(
    total: DrainResult,
    done_spans: Seq<Seq<u8>>,
    done_consumed: int,
    rest: DrainResult,
) -> bool {
    match total {
        DrainResult::Complete(t) => rest matches DrainResult::Complete(o) && t.spans == done_spans
            + o.spans && t.state == o.state && t.consumed == done_consumed + o.consumed,
        DrainResult::Faulted(t, f) => rest matches DrainResult::Faulted(o, g) && f == g && t.spans
            == done_spans + o.spans && t.state == o.state && t.consumed == done_consumed
            + o.consumed,
    }
}

/// Every drain decomposes trivially into no work plus itself.
pub proof fn lemma_decompose_init(st: ParserState, b: Seq<u8>)
    ensures
        drain_decomposes(drain(st, b), Seq::empty(), 0, drain(st, b)),
{
    match drain(st, b) {
        DrainResult::Complete(o) => {
            assert(Seq::empty() + o.spans =~= o.spans);
        },
        DrainResult::Faulted(o, _) => {
            assert(Seq::empty() + o.spans =~= o.spans);
        },
    }
}

/// When the current buffer advances one step, the decomposition moves past
/// that step: the emitted span (if any) joins the work done, the consumed
/// bytes join the consumed count, and the rest is the drain of the remaining
/// buffer in the next state.
pub proof fn lemma_decompose_step(
    total: DrainResult,
    done_spans: Seq<Seq<u8>>,
    done_consumed: int,
    st: ParserState,
    b: Seq<u8>,
)
    requires
        drain_decomposes(total, done_spans, done_consumed, drain(st, b)),
    ensures
        decode_step(st, b) matches StreamStep::Advance { next, consumed, span }
            ==> drain_decomposes(
            total,
            done_spans + spans_opt(span),
            done_consumed + consumed,
            drain(next, b.skip(consumed)),
        ),
{
    lemma_step_consumed(st, b);
    match decode_step(st, b) {
        StreamStep::Advance { next, consumed, span } => {
            match drain(next, b.skip(consumed)) {
                DrainResult::Complete(o) => {
                    assert(done_spans + (spans_opt(span) + o.spans) =~= (done_spans + spans_opt(
                        span,
                    )) + o.spans);
                },
                DrainResult::Faulted(o, _) => {
                    assert(done_spans + (spans_opt(span) + o.spans) =~= (done_spans + spans_opt(
                        span,
                    )) + o.spans);
                },
            }
        },
        _ => {},
    }
}

/// A header offset, once resolved, does not move when bytes are appended:
/// the first occurrence of the key is fixed, and the whitespace, colon and
/// bracket after it are already in the buffer.
pub proof fn lemma_header_extend(b: Seq<u8>, ext: Seq<u8>)
    requires
        header_end(b) is Some,
    ensures
        header_end(b + ext) == header_end(b),
{
    lemma_find_pat(b, features_key());
    let f = find_pat(b, features_key())->Some_0;
    lemma_first_pat_extend(b, ext, features_key(), f);
    lemma_find_pat(b + ext, features_key());
    assert(find_pat(b + ext, features_key()) == Some(f));
    lemma_ws_count(b.skip(f + 10));
    let i = f + 10 + ws_count(b.skip(f + 10));
    assert(i < b.len());
    assert(ws_count(b.skip(f + 10)) < b.skip(f + 10).len());
    lemma_ws_count_extend(b.skip(f + 10), ext);
    assert((b + ext).skip(f + 10) =~= b.skip(f + 10) + ext);
    assert((b + ext)[i] == b[i]);
    lemma_ws_count(b.skip(i + 1));
    let q = i + 1 + ws_count(b.skip(i + 1));
    assert(q < b.len());
    assert(ws_count(b.skip(i + 1)) < b.skip(i + 1).len());
    lemma_ws_count_extend(b.skip(i + 1), ext);
    assert((b + ext).skip(i + 1) =~= b.skip(i + 1) + ext);
    assert((b + ext)[q] == b[q]);
}

/// An advancing step is stable under extension of the buffer, as long as the
/// extended buffer still decodes as UTF-8: the same bytes are consumed, the
/// same span (if any) is emitted, and the same state follows.
pub proof fn lemma_step_extend(st: ParserState, b: Seq<u8>, ext: Seq<u8>)
    requires
        valid_utf8(b + ext),
        decode_step(st, b) is Advance,
    ensures
        decode_step(st, b + ext) == decode_step(st, b),
{
    lemma_ws_count(b);
    match st {
        ParserState::ExpectingHeader => {
            lemma_header_extend(b, ext);
        },
        ParserState::ExpectingFeature => {
            let w = ws_count(b);
            lemma_ws_count_extend(b, ext);
            assert((b + ext)[w] == b[w]);
            if b[w] == 0x5d {
            } else {
                let e = obj_end(b.skip(w))->Some_0;
                lemma_obj_end_bounds(b.skip(w), 0, scan_init());
                lemma_obj_end_extend(b.skip(w), ext, 0, scan_init(), e);
                assert((b + ext).skip(w) =~= b.skip(w) + ext);
                assert((b + ext).subrange(w, w + e) =~= b.subrange(w, w + e));
            }
        },
        ParserState::ExpectingCommaOrClose => {
            let w = ws_count(b);
            lemma_ws_count_extend(b, ext);
            assert((b + ext)[w] == b[w]);
        },
        ParserState::Done => {},
    }
}

/// Whatever a drain consumed ends just after an ASCII byte (or is nothing).
pub proof fn lemma_drain_consumed_ascii(st: ParserState, b: Seq<u8>)
    ensures
        drain_out(drain(st, b)).consumed == 0 || b[drain_out(drain(st, b)).consumed - 1] < 0x80,
    decreases b.len(),
{
    lemma_step_consumed(st, b);
    match decode_step(st, b) {
        StreamStep::Stall => {},
        StreamStep::Fault(_) => {},
        StreamStep::Advance { next, consumed, span } => {
            lemma_drain_consumed_ascii(next, b.skip(consumed));
            lemma_drain_consumed(next, b.skip(consumed));
            let rest_c = drain_out(drain(next, b.skip(consumed))).consumed;
            if rest_c > 0 {
                assert(b.skip(consumed)[rest_c - 1] == b[consumed + rest_c - 1]);
            }
        },
    }
}

/// Prepending one advancing step to a decomposition of the remaining drain
/// gives a decomposition of the whole drain.
pub proof fn lemma_decompose_prepend(
    st: ParserState,
    bx: Seq<u8>,
    next: ParserState,
    consumed: int,
    span: Option<Seq<u8>>,
    ds: Seq<Seq<u8>>,
    dc: int,
    rest: DrainResult,
)
    requires
        decode_step(st, bx) == (StreamStep::Advance { next, consumed, span }),
        drain_decomposes(drain(next, bx.skip(consumed)), ds, dc, rest),
    ensures
        drain_decomposes(drain(st, bx), spans_opt(span) + ds, consumed + dc, rest),
{
    match drain(next, bx.skip(consumed)) {
        DrainResult::Complete(o1) => {
            match rest {
                DrainResult::Complete(o2) => {
                    assert((spans_opt(span) + ds) + o2.spans =~= spans_opt(span) + (ds
                        + o2.spans));
                },
                DrainResult::Faulted(_, _) => {},
            }
        },
        DrainResult::Faulted(o1, _) => {
            match rest {
                DrainResult::Faulted(o2, _) => {
                    assert((spans_opt(span) + ds) + o2.spans =~= spans_opt(span) + (ds
                        + o2.spans));
                },
                DrainResult::Complete(_) => {},
            }
        },
    }
}

/// The heart of chunking-independence: a drain that came to rest waiting for
/// more input picks up where it left off when more bytes arrive.  Draining
/// the extended buffer performs the very same steps, emits the very same
/// spans, and then continues on the remainder plus the extension.
pub proof fn lemma_drain_extend(st: ParserState, b: Seq<u8>, ext: Seq<u8>)
    requires
        valid_utf8(b + ext),
        drain(st, b) is Complete,
    ensures
        ({
            let o = drain_out(drain(st, b));
            drain_decomposes(
                drain(st, b + ext),
                o.spans,
                o.consumed,
                drain(o.state, b.skip(o.consumed) + ext),
            )
        }),
    decreases b.len(),
{
    lemma_step_consumed(st, b);
    match decode_step(st, b) {
        StreamStep::Stall => {
            lemma_decompose_init(st, b + ext);
            assert(b.skip(0) + ext =~= b + ext);
        },
        StreamStep::Fault(_) => {},
        StreamStep::Advance { next, consumed, span } => {
            lemma_step_extend(st, b, ext);
            assert((b + ext)[consumed - 1] == b[consumed - 1]);
            lemma_ascii_boundary(b + ext, consumed);
            assert((b + ext).subrange(consumed, (b + ext).len() as int) =~= b.skip(consumed)
                + ext);
            assert(valid_utf8(b.skip(consumed) + ext));
            lemma_drain_extend(next, b.skip(consumed), ext);
            lemma_drain_consumed(next, b.skip(consumed));
            let o1 = drain_out(drain(next, b.skip(consumed)));
            assert((b + ext).skip(consumed) =~= b.skip(consumed) + ext);
            lemma_decompose_prepend(
                st,
                b + ext,
                next,
                consumed,
                span,
                o1.spans,
                o1.consumed,
                drain(o1.state, b.skip(consumed).skip(o1.consumed) + ext),
            );
            let o = drain_out(drain(st, b));
            assert(o.spans =~= spans_opt(span) + o1.spans);
            assert(o.consumed == consumed + o1.consumed);
            assert(o.state == o1.state);
            assert(b.skip(consumed).skip(o1.consumed) =~= b.skip(o.consumed));
        },
    }
}

/// A drain that failed on a malformed feature still fails on it, in the same
/// way and after the same progress, when more bytes arrive: the offending
/// object is already complete, and the buffer only grows further past the
/// cap.
pub proof fn lemma_drain_fault_extend(st: ParserState, b: Seq<u8>, ext: Seq<u8>)
    requires
        valid_utf8(b + ext),
        drain(st, b) matches DrainResult::Faulted(_, f) && f == DecodeFault::MalformedFeature,
    ensures
        ({
            let o = drain_out(drain(st, b));
            drain(st, b + ext) matches DrainResult::Faulted(o2, f2) && f2
                == DecodeFault::MalformedFeature
        }),
    decreases b.len(),
{
    lemma_step_consumed(st, b);
    match decode_step(st, b) {
        StreamStep::Stall => {},
        StreamStep::Fault(f) => {
            // The very first step faults, so the fault is the malformed
            // feature itself: the same whitespace, object span and failed
            // parse recur in the extended buffer, which is even longer.
            let w = ws_count(b);
            lemma_ws_count(b);
            lemma_ws_count_extend(b, ext);
            assert((b + ext)[w] == b[w]);
            let e = obj_end(b.skip(w))->Some_0;
            lemma_obj_end_bounds(b.skip(w), 0, scan_init());
            lemma_obj_end_extend(b.skip(w), ext, 0, scan_init(), e);
            assert((b + ext).skip(w) =~= b.skip(w) + ext);
            assert((b + ext).subrange(w, w + e) =~= b.subrange(w, w + e));
            assert(decode_step(st, b + ext) == StreamStep::Fault(DecodeFault::MalformedFeature));
        },
        StreamStep::Advance { next, consumed, span } => {
            lemma_step_extend(st, b, ext);
            lemma_ascii_boundary(b + ext, consumed);
            assert((b + ext).subrange(consumed, (b + ext).len() as int) =~= b.skip(consumed)
                + ext);
            lemma_drain_fault_extend(next, b.skip(consumed), ext);
            assert((b + ext).skip(consumed) =~= b.skip(consumed) + ext);
        },
    }
}

/// Only the very first step of a drain can report the header fault: the
/// decoder starts in the header phase and never returns to it.
pub proof fn lemma_header_fault_first(st: ParserState, b: Seq<u8>)
    requires
        drain(st, b) matches DrainResult::Faulted(_, f) && f == DecodeFault::HeaderNotFound,
    ensures
        st == ParserState::ExpectingHeader,
        decode_step(st, b) == StreamStep::Fault(DecodeFault::HeaderNotFound),
        drain_out(drain(st, b)).consumed == 0,
        drain_out(drain(st, b)).spans == Seq::<Seq<u8>>::empty(),
    decreases b.len(),
{
    match decode_step(st, b) {
        StreamStep::Stall => {},
        StreamStep::Fault(_) => {},
        StreamStep::Advance { next, consumed, span } => {
            lemma_step_consumed(st, b);
            lemma_header_fault_first(next, b.skip(consumed));
            assert(next != ParserState::ExpectingHeader);
        },
    }
}

/// What `finish` (the end-of-stream signal) may yield.
pub ghost enum FinishOut {
    /// No final feature is salvaged.
    Nothing,
    /// One last complete feature was still sitting in the buffer.
    One(Seq<u8>),
    /// The buffered tail is malformed and over the cap.
    Fault(DecodeFault),
}

/// Finalization: only a decoder still expecting a feature, whose buffer holds
/// one complete parsable object, yields a final feature.  In every other
/// state nothing further is produced.
pub open spec fn finish_step(st: ParserState, b: Seq<u8>) -> FinishOut {
    if !(st is ExpectingFeature) {
        FinishOut::Nothing
    } else if !valid_utf8(b) {
        FinishOut::Nothing
    } else {
        let w = ws_count(b);
        if w >= b.len() {
            FinishOut::Nothing
        } else {
            match obj_end(b.skip(w)) {
                None => FinishOut::Nothing,
                Some(e) => {
                    let span = b.subrange(w, w + e);
                    if feature_parses(span) {
                        FinishOut::One(span)
                    } else if b.len() > MAX_BUFFER_SIZE {
                        FinishOut::Fault(DecodeFault::MalformedFeature)
                    } else {
                        FinishOut::Nothing
                    }
                },
            }
        }
    }
}

} // verus!

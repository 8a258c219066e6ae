//! Byte-level text scanning: JSON whitespace, substring search, and the
//! balanced-brace object scanner.
//!
//! All three scanners are specified as recursive functions over byte
//! sequences, and each executable routine is proved to compute exactly its
//! specification.  The object scanner walks a buffer byte by byte, tracking
//! brace depth while ignoring braces that appear inside JSON string literals
//! (honouring backslash escapes), and reports the end of the first complete
//! top-level object.

use vstd::prelude::*;

verus! {

/// The four whitespace bytes JSON allows between tokens.
pub open spec fn is_json_ws(c: u8) -> bool {
    c == 0x20 || c == 0x09 || c == 0x0a || c == 0x0d
}

/// Length of the longest prefix of `b` made of JSON whitespace.
pub open spec fn ws_count(b: Seq<u8>) -> int
    decreases b.len(),
{
    if b.len() == 0 || !is_json_ws(b[0]) {
        0
    } else {
        1 + ws_count(b.skip(1))
    }
}

/// `ws_count` is the unique boundary between a whitespace prefix and either
/// the end of the sequence or a non-whitespace byte.
pub proof fn lemma_ws_count(b: Seq<u8>)
    ensures
        0 <= ws_count(b) <= b.len(),
        forall|i: int| 0 <= i < ws_count(b) ==> is_json_ws(#[trigger] b[i]),
        ws_count(b) < b.len() ==> !is_json_ws(b[ws_count(b)]),
    decreases b.len(),
{
    if b.len() != 0 && is_json_ws(b[0]) {
        lemma_ws_count(b.skip(1));
        assert forall|i: int| 0 <= i < ws_count(b) implies is_json_ws(#[trigger] b[i]) by {
            if i > 0 {
                assert(b[i] == b.skip(1)[i - 1]);
            }
        }
        assert(ws_count(b) < b.len() ==> b[ws_count(b)] == b.skip(1)[ws_count(b.skip(1))]);
    }
}

/// Adding bytes after a non-whitespace byte does not move the whitespace
/// boundary.
pub proof fn lemma_ws_count_extend(b: Seq<u8>, ext: Seq<u8>)
    requires
        ws_count(b) < b.len(),
    ensures
        ws_count(b + ext) == ws_count(b),
    decreases b.len(),
{
    lemma_ws_count(b);
    if b.len() != 0 && is_json_ws(b[0]) {
        assert((b + ext).skip(1) =~= b.skip(1) + ext);
        lemma_ws_count_extend(b.skip(1), ext);
    }
}

/// Count the JSON whitespace bytes at the front of `b`.
pub fn skip_json_ws(b: &[u8]) -> (r: usize)
    ensures
        r as int == ws_count(b@),
{
    let n = b.len();
    let mut i: usize = 0;
    proof {
        lemma_ws_count(b@);
    }
    while i < n && (b[i] == 0x20 || b[i] == 0x09 || b[i] == 0x0a || b[i] == 0x0d)
        invariant
            0 <= i <= n,
            n == b@.len(),
            forall|j: int| 0 <= j < i ==> is_json_ws(#[trigger] b@[j]),
            i <= ws_count(b@),
        decreases n - i,
    {
        proof {
            lemma_ws_count(b@);
            lemma_ws_prefix(b@, i + 1);
        }
        i = i + 1;
    }
    proof {
        lemma_ws_count(b@);
    }
    i
}

/// The whitespace prefix length is exactly `w` when the first `w` bytes are
/// whitespace and the next byte (if any) is not.
pub proof fn lemma_ws_count_exact(b: Seq<u8>, w: int)
    requires
        0 <= w <= b.len(),
        forall|i: int| 0 <= i < w ==> is_json_ws(#[trigger] b[i]),
        w < b.len() ==> !is_json_ws(b[w]),
    ensures
        ws_count(b) == w,
{
    lemma_ws_prefix(b, w);
    lemma_ws_count(b);
    if ws_count(b) > w {
        assert(is_json_ws(b[w]));
    }
}

/// If the first `k` bytes are whitespace, the whitespace prefix is at least
/// `k` long.
proof fn lemma_ws_prefix(b: Seq<u8>, k: int)
    requires
        0 <= k <= b.len(),
        forall|j: int| 0 <= j < k ==> is_json_ws(#[trigger] b[j]),
    ensures
        ws_count(b) >= k,
    decreases k,
{
    lemma_ws_count(b);
    if k > 0 {
        assert(is_json_ws(b[0]));
        assert forall|j: int| 0 <= j < k - 1 implies is_json_ws(#[trigger] b.skip(1)[j]) by {
            assert(b.skip(1)[j] == b[j + 1]);
            assert(is_json_ws(b[j + 1]));
        }
        lemma_ws_prefix(b.skip(1), k - 1);
        assert(ws_count(b) == 1 + ws_count(b.skip(1)));
    }
}

/// True when `pat` occurs in `b` starting at index `i`.
pub open spec fn pat_at(b: Seq<u8>, pat: Seq<u8>, i: int) -> bool {
    0 <= i && i + pat.len() <= b.len() && b.subrange(i, i + pat.len() as int) == pat
}

/// True when `i` is the first index at which `pat` occurs in `b`.
pub open spec fn first_pat_at(b: Seq<u8>, pat: Seq<u8>, i: int) -> bool {
    pat_at(b, pat, i) && forall|j: int| 0 <= j < i ==> !pat_at(b, pat, j)
}

/// True when `i` is the last index at which `pat` occurs in `b`.
pub open spec fn last_pat_at(b: Seq<u8>, pat: Seq<u8>, i: int) -> bool {
    pat_at(b, pat, i) && forall|j: int| j > i ==> !pat_at(b, pat, j)
}

/// Index of the first occurrence of `pat` in `b`, if any.
pub open spec fn find_pat(b: Seq<u8>, pat: Seq<u8>) -> Option<int> {
    if exists|i: int| first_pat_at(b, pat, i) {
        Some(choose|i: int| first_pat_at(b, pat, i))
    } else {
        None
    }
}

/// `find_pat` returns exactly the first occurrence: it is `Some(i)` if and
/// only if `i` is the first index where `pat` occurs, and `None` if and only
/// if `pat` occurs nowhere.
pub proof fn lemma_find_pat(b: Seq<u8>, pat: Seq<u8>)
    ensures
        forall|i: int| first_pat_at(b, pat, i) ==> find_pat(b, pat) == Some(i),
        (forall|j: int| !pat_at(b, pat, j)) ==> find_pat(b, pat) is None,
        find_pat(b, pat) matches Some(i) ==> first_pat_at(b, pat, i),
        find_pat(b, pat) is None ==> forall|j: int| !pat_at(b, pat, j),
{
    assert forall|i: int| first_pat_at(b, pat, i) implies find_pat(b, pat) == Some(i) by {
        let w = choose|k: int| first_pat_at(b, pat, k);
        if w < i {
            assert(!pat_at(b, pat, w));
        }
        if i < w {
            assert(!pat_at(b, pat, i));
        }
    }
    if find_pat(b, pat) is None {
        assert forall|j: int| !pat_at(b, pat, j) by {
            lemma_pat_somewhere_first(b, pat);
        }
    }
}

/// If `pat` occurs anywhere in `b`, it has a first occurrence.
proof fn lemma_pat_somewhere_first(b: Seq<u8>, pat: Seq<u8>)
    ensures
        forall|j: int| pat_at(b, pat, j) ==> exists|i: int| first_pat_at(b, pat, i),
{
    assert forall|j: int| pat_at(b, pat, j) implies exists|i: int| first_pat_at(b, pat, i) by {
        lemma_first_from_witness(b, pat, j);
    }
}

/// From any occurrence, walk left to the first one.
proof fn lemma_first_from_witness(b: Seq<u8>, pat: Seq<u8>, j: int)
    requires
        pat_at(b, pat, j),
    ensures
        exists|i: int| first_pat_at(b, pat, i),
    decreases j,
{
    if exists|k: int| 0 <= k < j && pat_at(b, pat, k) {
        let k = choose|k: int| 0 <= k < j && pat_at(b, pat, k);
        lemma_first_from_witness(b, pat, k);
    } else {
        assert(first_pat_at(b, pat, j));
    }
}

/// Index of the last occurrence of `pat` in `b`, if any.
pub open spec fn rfind_pat(b: Seq<u8>, pat: Seq<u8>) -> Option<int> {
    if exists|i: int| last_pat_at(b, pat, i) {
        Some(choose|i: int| last_pat_at(b, pat, i))
    } else {
        None
    }
}

/// `rfind_pat` returns exactly the last occurrence.
pub proof fn lemma_rfind_pat(b: Seq<u8>, pat: Seq<u8>)
    requires
        pat.len() >= 1,
    ensures
        forall|i: int| last_pat_at(b, pat, i) ==> rfind_pat(b, pat) == Some(i),
        rfind_pat(b, pat) matches Some(i) ==> last_pat_at(b, pat, i),
        rfind_pat(b, pat) is None ==> forall|j: int| !pat_at(b, pat, j),
{
    assert forall|i: int| last_pat_at(b, pat, i) implies rfind_pat(b, pat) == Some(i) by {
        let w = choose|k: int| last_pat_at(b, pat, k);
        if w < i {
            assert(!pat_at(b, pat, i));
        }
        if i < w {
            assert(!pat_at(b, pat, w));
        }
    }
    if rfind_pat(b, pat) is None {
        assert forall|j: int| !pat_at(b, pat, j) by {
            if pat_at(b, pat, j) {
                lemma_last_from_witness(b, pat, j);
            }
        }
    }
}

/// From any occurrence, walk right to the last one.
proof fn lemma_last_from_witness(b: Seq<u8>, pat: Seq<u8>, j: int)
    requires
        pat.len() >= 1,
        pat_at(b, pat, j),
    ensures
        exists|i: int| last_pat_at(b, pat, i),
    decreases b.len() - j,
{
    if exists|k: int| k > j && pat_at(b, pat, k) {
        let k = choose|k: int| k > j && pat_at(b, pat, k);
        assert(k + pat.len() <= b.len());
        lemma_last_from_witness(b, pat, k);
    } else {
        assert(last_pat_at(b, pat, j));
    }
}

/// An occurrence inside a prefix of `b` is an occurrence in `b`, and the
/// first occurrence does not move when bytes are appended.
pub proof fn lemma_first_pat_extend(b: Seq<u8>, ext: Seq<u8>, pat: Seq<u8>, i: int)
    requires
        first_pat_at(b, pat, i),
    ensures
        first_pat_at(b + ext, pat, i),
{
    assert(pat_at(b + ext, pat, i)) by {
        assert((b + ext).subrange(i, i + pat.len() as int) =~= b.subrange(
            i,
            i + pat.len() as int,
        ));
    }
    assert forall|j: int| 0 <= j < i implies !pat_at(b + ext, pat, j) by {
        if pat_at(b + ext, pat, j) {
            assert(j + pat.len() <= i + pat.len() <= b.len());
            assert((b + ext).subrange(j, j + pat.len() as int) =~= b.subrange(
                j,
                j + pat.len() as int,
            ));
            assert(pat_at(b, pat, j));
        }
    }
}

/// Whether `pat` occurs in `b` at position `i`, decided executably.
fn match_at(b: &[u8], pat: &[u8], i: usize) -> (r: bool)
    requires
        i + pat@.len() <= b@.len(),
    ensures
        r == pat_at(b@, pat@, i as int),
{
    let m = pat.len();
    let bn = b.len();
    let mut k: usize = 0;
    while k < m
        invariant
            0 <= k <= m,
            m == pat@.len(),
            bn == b@.len(),
            i + m <= bn,
            forall|l: int| 0 <= l < k ==> b@[i + l] == pat@[l],
        decreases m - k,
    {
        if b[i + k] != pat[k] {
            proof {
                assert(b@.subrange(i as int, i + m as int)[k as int] != pat@[k as int]);
            }
            return false;
        }
        k = k + 1;
    }
    proof {
        assert(b@.subrange(i as int, i + m as int) =~= pat@);
    }
    true
}

/// Find the first occurrence of `pat` in `b`.
pub fn find_pattern(b: &[u8], pat: &[u8]) -> (r: Option<usize>)
    requires
        pat@.len() >= 1,
    ensures
        r == match find_pat(b@, pat@) {
            Some(i) => Some(i as usize),
            None => None::<usize>,
        },
        r matches Some(i) ==> first_pat_at(b@, pat@, i as int),
        r is None ==> forall|j: int| !pat_at(b@, pat@, j),
{
    let n = b.len();
    let m = pat.len();
    proof {
        lemma_find_pat(b@, pat@);
    }
    if m > n {
        return None;
    }
    let mut i: usize = 0;
    while i <= n - m
        invariant
            0 <= i <= n - m + 1,
            m == pat@.len(),
            n == b@.len(),
            1 <= m <= n,
            forall|j: int| 0 <= j < i ==> !pat_at(b@, pat@, j),
        decreases n - i,
    {
        if match_at(b, pat, i) {
            proof {
                assert(first_pat_at(b@, pat@, i as int));
                lemma_find_pat(b@, pat@);
            }
            return Some(i);
        }
        i = i + 1;
    }
    proof {
        assert forall|j: int| !pat_at(b@, pat@, j) by {
            if j + pat@.len() <= b@.len() {
                assert(j <= n - m);
            }
        }
        lemma_find_pat(b@, pat@);
    }
    None
}

/// Find the last occurrence of `pat` in `b`.
pub fn rfind_pattern(b: &[u8], pat: &[u8]) -> (r: Option<usize>)
    requires
        pat@.len() >= 1,
    ensures
        r matches Some(i) ==> last_pat_at(b@, pat@, i as int) && rfind_pat(b@, pat@) == Some(
            i as int,
        ),
        r is None ==> rfind_pat(b@, pat@) is None,
{
    proof {
        lemma_rfind_pat(b@, pat@);
    }
    let n = b.len();
    let m = pat.len();
    if m > n {
        return None;
    }
    let mut i: usize = n - m + 1;
    while i > 0
        invariant
            0 <= i <= n - m + 1,
            m == pat@.len(),
            n == b@.len(),
            1 <= m <= n,
            forall|j: int| j >= i ==> !pat_at(b@, pat@, j),
        decreases i,
    {
        i = i - 1;
        if match_at(b, pat, i) {
            proof {
                assert(last_pat_at(b@, pat@, i as int));
                lemma_rfind_pat(b@, pat@);
            }
            return Some(i);
        }
    }
    None
}

/// State of the balanced-brace scanner after some prefix of the text:
/// the count of unmatched `{` (minus unmatched `}`), whether the scan is
/// inside a string literal, whether the previous byte was an unconsumed
/// backslash escape, and whether an opening `{` has been seen outside a
/// string yet.
pub ghost struct ScanState {
    pub depth: int,
    pub in_str: bool,
    pub esc: bool,
    pub started: bool,
}

/// The scanner state before any byte has been read.
pub open spec fn scan_init() -> ScanState {
    ScanState { depth: 0, in_str: false, esc: false, started: false }
}

/// One byte of the balanced-brace scan.  An escaped byte is consumed without
/// effect; `"` toggles string mode; `{` and `}` adjust the depth only outside
/// strings.
pub open spec fn scan_step(st: ScanState, c: u8) -> ScanState {
    if st.esc {
        ScanState { esc: false, ..st }
    } else if st.in_str && c == 0x5c {
        ScanState { esc: true, ..st }
    } else if c == 0x22 {
        ScanState { in_str: !st.in_str, ..st }
    } else if !st.in_str && c == 0x7b {
        ScanState { depth: st.depth + 1, started: true, ..st }
    } else if !st.in_str && c == 0x7d {
        ScanState { depth: st.depth - 1, ..st }
    } else {
        st
    }
}

/// True when reading `c` in state `st` closes the first complete top-level
/// object: an unescaped `}` outside a string that returns the depth to zero
/// after an object has started.
pub open spec fn scan_completes(st: ScanState, c: u8) -> bool {
    !st.esc && !st.in_str && c == 0x7d && st.started && st.depth == 1
}

/// Position one past the `}` that completes the first top-level object when
/// scanning `b` from index `i` in state `st`; `None` when the scan reaches
/// the end of `b` without completing an object.
pub open spec fn obj_end_from(b: Seq<u8>, i: int, st: ScanState) -> Option<int>
    decreases b.len() - i,
    when 0 <= i <= b.len()
{
    if i >= b.len() {
        None
    } else if scan_completes(st, b[i]) {
        Some(i + 1)
    } else {
        obj_end_from(b, i + 1, scan_step(st, b[i]))
    }
}

/// Position one past the end of the first complete top-level JSON object
/// in `b`, if one is present.
pub open spec fn obj_end(b: Seq<u8>) -> Option<int> {
    obj_end_from(b, 0, scan_init())
}

/// A found object end lies within the text, after the start of the scan, and
/// the byte just before it is the closing `}`.
pub proof fn lemma_obj_end_bounds(b: Seq<u8>, i: int, st: ScanState)
    requires
        0 <= i <= b.len(),
        obj_end_from(b, i, st) is Some,
    ensures
        i < obj_end_from(b, i, st)->Some_0 <= b.len(),
        b[obj_end_from(b, i, st)->Some_0 - 1] == 0x7d,
    decreases b.len() - i,
{
    if i < b.len() && !scan_completes(st, b[i]) {
        lemma_obj_end_bounds(b, i + 1, scan_step(st, b[i]));
    }
}

/// The scan of a prefix agrees with the scan of the whole text: a prefix
/// reports an object end exactly when the whole text reports one that lies
/// inside the prefix.  In particular, on any truncation of the text the
/// scanner answers "incomplete", never a different end.
pub proof fn lemma_obj_end_take(b: Seq<u8>, k: int, i: int, st: ScanState)
    requires
        0 <= i <= k <= b.len(),
    ensures
        obj_end_from(b.take(k), i, st) == match obj_end_from(b, i, st) {
            Some(j) => if j <= k {
                Some(j)
            } else {
                None::<int>
            },
            None => None::<int>,
        },
    decreases k - i,
{
    let p = b.take(k);
    if i >= k {
        if obj_end_from(b, i, st) is Some {
            lemma_obj_end_bounds(b, i, st);
        }
    } else {
        assert(p[i] == b[i]);
        if scan_completes(st, b[i]) {
        } else {
            lemma_obj_end_take(b, k, i + 1, scan_step(st, b[i]));
            if obj_end_from(b, i, st) is Some {
                lemma_obj_end_bounds(b, i, st);
            }
        }
    }
}

/// Appending bytes never moves an object end that has already been found.
pub proof fn lemma_obj_end_extend(b: Seq<u8>, ext: Seq<u8>, i: int, st: ScanState, j: int)
    requires
        0 <= i <= b.len(),
        obj_end_from(b, i, st) == Some(j),
    ensures
        obj_end_from(b + ext, i, st) == Some(j),
{
    assert((b + ext).take(b.len() as int) =~= b);
    lemma_obj_end_take(b + ext, b.len() as int, i, st);
    lemma_obj_end_bounds(b, i, st);
}

/// Scan `b` for the end of the first complete top-level JSON object.
pub fn scan_object_end(b: &[u8]) -> (r: Option<usize>)
    ensures
        r matches Some(j) ==> obj_end(b@) == Some(j as int),
        r is None ==> obj_end(b@) is None,
{
    let n = b.len();
    let mut i: usize = 0;
    let mut opens: usize = 0;
    let mut closes: usize = 0;
    let mut in_str: bool = false;
    let mut esc: bool = false;
    let mut started: bool = false;
    let ghost mut st = scan_init();
    while i < n
        invariant
            0 <= i <= n,
            n == b@.len(),
            opens <= i,
            closes <= i,
            st.depth == opens as int - closes as int,
            st.in_str == in_str,
            st.esc == esc,
            st.started == started,
            obj_end(b@) == obj_end_from(b@, i as int, st),
        decreases n - i,
    {
        let c = b[i];
        if esc {
            esc = false;
        } else if in_str && c == 0x5c {
            esc = true;
        } else if c == 0x22 {
            in_str = !in_str;
        } else if !in_str && c == 0x7b {
            opens = opens + 1;
            started = true;
        } else if !in_str && c == 0x7d {
            if started && opens == closes + 1 {
                proof {
                    assert(scan_completes(st, c));
                }
                return Some(i + 1);
            }
            closes = closes + 1;
        }
        proof {
            assert(!scan_completes(st, c));
            st = scan_step(st, c);
        }
        i = i + 1;
    }
    None
}

} // verus!

//! An executable UTF-8 validity check, proved against vstd's `valid_utf8`.
//!
//! The streaming decoder only scans its buffer as text once the buffer as a
//! whole is a valid UTF-8 encoding; until then it treats the bytes as an
//! incomplete fragment and waits for more input.  This module provides the
//! executable check backing that gate.

use vstd::prelude::*;

verus! {

use vstd::utf8::*;

/// In a valid UTF-8 sequence, the position just after an ASCII byte is a
/// character boundary, so both sides of a split there are valid UTF-8.
pub proof fn lemma_ascii_boundary(b: Seq<u8>, c: int)
    requires
        valid_utf8(b),
        1 <= c <= b.len(),
        b[c - 1] < 0x80,
    ensures
        is_char_boundary(b, c),
        valid_utf8(b.subrange(0, c)),
        valid_utf8(b.subrange(c, b.len() as int)),
{
    if c == b.len() {
        is_char_boundary_start_end_of_seq(b);
    } else {
        is_char_boundary_iff_not_is_continuation_byte(b, c - 1);
        assert(is_char_boundary(b, c - 1));
        valid_utf8_split(b, c - 1);
        let s = b.subrange(c - 1, b.len() as int);
        assert(valid_utf8(s));
        assert(s[0] == b[c - 1]);
        assert(is_leading_byte_width_1(s[0]));
        assert(length_of_first_scalar(s) == 1);
        assert(valid_utf8(pop_first_scalar(s)));
        assert(pop_first_scalar(s)[0] == b[c]);
        if is_continuation_byte(b[c]) {
            assert(!valid_first_scalar(pop_first_scalar(s)));
            assert(false);
        }
        is_char_boundary_iff_not_is_continuation_byte(b, c);
    }
    valid_utf8_split(b, c);
}

/// Decides whether `b` is a valid UTF-8 encoding, in the sense of
/// `vstd::utf8::valid_utf8`: every byte belongs to a well-formed scalar
/// encoding that is neither overlong nor in the surrogate range, and no
/// encoding is cut short at the end of the slice.
pub fn validate_utf8(b: &[u8]) -> (r: bool)
    ensures
        r == valid_utf8(b@),
{
    let n = b.len();
    let mut i: usize = 0;
    proof {
        assert(b@.skip(0) =~= b@);
    }
    loop
        invariant
            0 <= i <= n,
            n == b@.len(),
            valid_utf8(b@) == valid_utf8(b@.skip(i as int)),
        decreases n - i,
    {
        if i >= n {
            proof {
                assert(b@.skip(i as int) =~= Seq::<u8>::empty());
            }
            return true;
        }
        let ghost s = b@.skip(i as int);
        proof {
            assert(s.len() == n - i);
            assert(s[0] == b@[i as int]);
        }
        let c0 = b[i];
        let step: usize;
        if c0 < 0x80 {
            proof {
                assert(((c0 & 0x7f) as u32) < 0xd800 && ((c0 & 0x7f) as u32) < 0x80)
                    by (bit_vector);
                assert(valid_first_scalar(s));
                assert(length_of_first_scalar(s) == 1);
            }
            step = 1;
        } else if c0 < 0xc2 {
            // 0x80..=0xbf: a stray continuation byte; 0xc0..=0xc1: an overlong
            // two-byte encoding of an ASCII value.  Invalid either way.
            proof {
                if 0xc0 <= c0 && s.len() >= 2 && is_continuation_byte(s[1]) {
                    let c1 = s[1];
                    assert((((c0 & 0x1f) as u32) << 6 | ((c1 & 0x3f) as u32)) < 0x80)
                        by (bit_vector)
                        requires
                            0xc0 <= c0 <= 0xc1,
                    ;
                }
                assert(!valid_first_scalar(s));
            }
            return false;
        } else if c0 <= 0xdf {
            if i + 1 >= n || !(0x80 <= b[i + 1] && b[i + 1] <= 0xbf) {
                proof {
                    assert(!valid_first_scalar(s));
                }
                return false;
            }
            let c1 = b[i + 1];
            proof {
                assert(s[1] == c1);
                assert({
                    let cp = ((c0 & 0x1f) as u32) << 6 | ((c1 & 0x3f) as u32);
                    0x80 <= cp <= 0x7ff
                })
                    by (bit_vector)
                    requires
                        0xc2 <= c0 <= 0xdf,
                ;
                assert(valid_first_scalar(s));
                assert(length_of_first_scalar(s) == 2);
            }
            step = 2;
        } else if c0 <= 0xef {
            if n - i < 3 {
                proof {
                    assert(!valid_first_scalar(s));
                }
                return false;
            }
            let c1 = b[i + 1];
            let c2 = b[i + 2];
            let c1_ok: bool = if c0 == 0xe0 {
                0xa0 <= c1 && c1 <= 0xbf
            } else if c0 == 0xed {
                0x80 <= c1 && c1 <= 0x9f
            } else {
                0x80 <= c1 && c1 <= 0xbf
            };
            if !c1_ok || !(0x80 <= c2 && c2 <= 0xbf) {
                proof {
                    assert(s[1] == c1 && s[2] == c2);
                    if is_continuation_byte(c1) && is_continuation_byte(c2) {
                        let cp = ((c0 & 0x0f) as u32) << 12 | ((c1 & 0x3f) as u32) << 6 | ((c2
                            & 0x3f) as u32);
                        if c0 == 0xe0 {
                            assert(cp < 0x800) by (bit_vector)
                                requires
                                    c0 == 0xe0,
                                    0x80 <= c1 <= 0xbf,
                                    !(0xa0 <= c1 <= 0xbf),
                                    cp == ((c0 & 0x0f) as u32) << 12 | ((c1 & 0x3f) as u32) << 6 | (
                                    (c2 & 0x3f) as u32),
                            ;
                        } else {
                            assert(0xd800 <= cp <= 0xdfff) by (bit_vector)
                                requires
                                    c0 == 0xed,
                                    0x80 <= c1 <= 0xbf,
                                    !(0x80 <= c1 <= 0x9f),
                                    cp == ((c0 & 0x0f) as u32) << 12 | ((c1 & 0x3f) as u32) << 6 | (
                                    (c2 & 0x3f) as u32),
                            ;
                        }
                    }
                    assert(!valid_first_scalar(s));
                }
                return false;
            }
            proof {
                assert(s[1] == c1 && s[2] == c2);
                assert({
                    let cp = ((c0 & 0x0f) as u32) << 12 | ((c1 & 0x3f) as u32) << 6 | ((c2
                        & 0x3f) as u32);
                    0x800 <= cp && !(0xd800 <= cp <= 0xdfff)
                })
                    by (bit_vector)
                    requires
                        0xe0 <= c0 <= 0xef,
                        0x80 <= c1 <= 0xbf,
                        c0 == 0xe0 ==> 0xa0 <= c1,
                        c0 == 0xed ==> c1 <= 0x9f,
                ;
                assert(valid_first_scalar(s));
                assert(length_of_first_scalar(s) == 3);
            }
            step = 3;
        } else if c0 <= 0xf4 {
            if n - i < 4 {
                proof {
                    assert(!valid_first_scalar(s));
                }
                return false;
            }
            let c1 = b[i + 1];
            let c2 = b[i + 2];
            let c3 = b[i + 3];
            let c1_ok: bool = if c0 == 0xf0 {
                0x90 <= c1 && c1 <= 0xbf
            } else if c0 == 0xf4 {
                0x80 <= c1 && c1 <= 0x8f
            } else {
                0x80 <= c1 && c1 <= 0xbf
            };
            if !c1_ok || !(0x80 <= c2 && c2 <= 0xbf) || !(0x80 <= c3 && c3 <= 0xbf) {
                proof {
                    assert(s[1] == c1 && s[2] == c2 && s[3] == c3);
                    if is_continuation_byte(c1) && is_continuation_byte(c2)
                        && is_continuation_byte(c3) {
                        let cp = ((c0 & 0x07) as u32) << 18 | ((c1 & 0x3f) as u32) << 12 | ((c2
                            & 0x3f) as u32) << 6 | ((c3 & 0x3f) as u32);
                        if c0 == 0xf0 {
                            assert(cp < 0x10000) by (bit_vector)
                                requires
                                    c0 == 0xf0,
                                    0x80 <= c1 <= 0xbf,
                                    !(0x90 <= c1 <= 0xbf),
                                    cp == ((c0 & 0x07) as u32) << 18 | ((c1 & 0x3f) as u32) << 12 | (
                                    (c2 & 0x3f) as u32) << 6 | ((c3 & 0x3f) as u32),
                            ;
                        } else {
                            assert(cp > 0x10ffff) by (bit_vector)
                                requires
                                    c0 == 0xf4,
                                    0x80 <= c1 <= 0xbf,
                                    !(0x80 <= c1 <= 0x8f),
                                    cp == ((c0 & 0x07) as u32) << 18 | ((c1 & 0x3f) as u32) << 12 | (
                                    (c2 & 0x3f) as u32) << 6 | ((c3 & 0x3f) as u32),
                            ;
                        }
                    }
                    assert(!valid_first_scalar(s));
                }
                return false;
            }
            proof {
                assert(s[1] == c1 && s[2] == c2 && s[3] == c3);
                assert({
                    let cp = ((c0 & 0x07) as u32) << 18 | ((c1 & 0x3f) as u32) << 12 | ((c2
                        & 0x3f) as u32) << 6 | ((c3 & 0x3f) as u32);
                    0x10000 <= cp <= 0x10ffff
                })
                    by (bit_vector)
                    requires
                        0xf0 <= c0 <= 0xf4,
                        0x80 <= c1 <= 0xbf,
                        c0 == 0xf0 ==> 0x90 <= c1,
                        c0 == 0xf4 ==> c1 <= 0x8f,
                ;
                assert(valid_first_scalar(s));
                assert(length_of_first_scalar(s) == 4);
            }
            step = 4;
        } else {
            // 0xf5..=0xf7 encode values above 0x10ffff; 0xf8..=0xff are not
            // leading bytes at all.
            proof {
                if c0 <= 0xf7 && s.len() >= 4 && is_continuation_byte(s[1])
                    && is_continuation_byte(s[2]) && is_continuation_byte(s[3]) {
                    let c1 = s[1];
                    let c2 = s[2];
                    let c3 = s[3];
                    assert((((c0 & 0x07) as u32) << 18 | ((c1 & 0x3f) as u32) << 12 | ((c2
                        & 0x3f) as u32) << 6 | ((c3 & 0x3f) as u32)) > 0x10ffff)
                        by (bit_vector)
                        requires
                            0xf5 <= c0 <= 0xf7,
                    ;
                }
                assert(!valid_first_scalar(s));
            }
            return false;
        }
        proof {
            assert(valid_utf8(s) == (valid_first_scalar(s) && valid_utf8(pop_first_scalar(s))));
            assert(pop_first_scalar(s) =~= b@.skip(i + step as int));
        }
        i = i + step;
    }
}

} // verus!

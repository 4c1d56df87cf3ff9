//! Executable UTF-8 machinery for the string container: a scalar encoder, a
//! validator, and lossy decoding with U+FFFD substitution, all specified
//! against `vstd::utf8`.
//!
//! Lossy decoding follows the maximal-subpart convention: each maximal
//! prefix of a valid scalar encoding that cannot be completed is replaced
//! by a single U+FFFD.

use vstd::prelude::*;

use vstd::utf8::{
    decode_first_codepoint, encode_scalar, encode_utf8, is_continuation_byte,
    is_leading_byte_width_1, is_leading_byte_width_2, is_leading_byte_width_3,
    is_leading_byte_width_4, length_of_first_scalar, pop_first_scalar, take_first_scalar,
    valid_first_scalar, valid_utf8,
};

verus! {

use vstd::string::StringSliceAdditionalSpecFns;

/// The UTF-8 encoding of U+FFFD, the replacement character.
pub open spec fn replacement_bytes() -> Seq<u8> {
    seq![0xefu8, 0xbfu8, 0xbdu8]
}

/// Whether `b1` can follow the leading byte `b0` as the second byte of a
/// valid 3- or 4-byte scalar encoding. The narrowed ranges after `0xe0`,
/// `0xed`, `0xf0` and `0xf4` rule out overlong encodings, surrogates and
/// values past U+10FFFF.
pub open spec fn second_byte_ok(b0: u8, b1: u8) -> bool {
    if b0 == 0xe0 {
        0xa0 <= b1 <= 0xbf
    } else if b0 == 0xed {
        0x80 <= b1 <= 0x9f
    } else if 0xe1 <= b0 <= 0xef {
        0x80 <= b1 <= 0xbf
    } else if b0 == 0xf0 {
        0x90 <= b1 <= 0xbf
    } else if 0xf1 <= b0 <= 0xf3 {
        0x80 <= b1 <= 0xbf
    } else if b0 == 0xf4 {
        0x80 <= b1 <= 0x8f
    } else {
        false
    }
}

/// How many bytes an invalid sequence swallows before the replacement
/// character: the length of the maximal prefix of a valid scalar encoding.
pub open spec fn invalid_step(s: Seq<u8>) -> int
    recommends
        s.len() > 0,
{
    if s.len() >= 2 && second_byte_ok(s[0], s[1]) {
        if s.len() >= 3 && 0xf0 <= s[0] <= 0xf4 && is_continuation_byte(s[2]) {
            3
        } else {
            2
        }
    } else {
        1
    }
}

/// The bytes of the lossy UTF-8 decoding: valid scalar encodings pass
/// through unchanged, anything else becomes one U+FFFD per maximal
/// subpart.
pub open spec fn utf8_lossy(s: Seq<u8>) -> Seq<u8>
    decreases s.len(),
{
    if s.len() == 0 {
        seq![]
    } else if valid_first_scalar(s) {
        take_first_scalar(s) + utf8_lossy(pop_first_scalar(s))
    } else {
        replacement_bytes() + utf8_lossy(s.subrange(invalid_step(s), s.len() as int))
    }
}

/// `base` repeated `n` times, flattened.
pub open spec fn repeat_bytes(base: Seq<u8>, n: nat) -> Seq<u8>
    decreases n,
{
    if n == 0 {
        seq![]
    } else {
        base + repeat_bytes(base, (n - 1) as nat)
    }
}

/// The characters of the lossy UTF-16 decoding: well-formed units and
/// surrogate pairs decode as themselves, unpaired surrogates become
/// U+FFFD.
pub open spec fn utf16_lossy_chars(s: Seq<u16>) -> Seq<char>
    decreases s.len(),
{
    if s.len() == 0 {
        seq![]
    } else {
        let u = s[0];
        if u < 0xd800 || u >= 0xe000 {
            seq![(u as u32) as char] + utf16_lossy_chars(s.drop_first())
        } else if u < 0xdc00 && s.len() >= 2 && 0xdc00 <= s[1] < 0xe000 {
            let combined = (0x10000 + (((u - 0xd800) as u32) * 0x400) + ((s[1] - 0xdc00) as u32))
                as u32;
            seq![combined as char] + utf16_lossy_chars(s.subrange(2, s.len() as int))
        } else {
            seq!['\u{fffd}'] + utf16_lossy_chars(s.drop_first())
        }
    }
}

/// Encodes one character as UTF-8, exactly as the specification-level
/// scalar encoding does.
pub fn encode_char(c: char) -> (r: Vec<u8>)
    ensures
        r@ == encode_scalar(c as u32),
        1 <= r@.len() <= 4,
        r@.len() == encode_scalar(c as u32).len(),
{
    let v = c as u32;
    let mut out: Vec<u8> = Vec::new();
    if v < 0x80 {
        out.push((v & 0x7f) as u8);
    } else if v < 0x800 {
        out.push(0xc0 | ((v >> 6) & 0x1f) as u8);
        out.push(0x80 | (v & 0x3f) as u8);
    } else if v < 0x10000 {
        out.push(0xe0 | ((v >> 12) & 0x0f) as u8);
        out.push(0x80 | ((v >> 6) & 0x3f) as u8);
        out.push(0x80 | (v & 0x3f) as u8);
    } else {
        out.push(0xf0 | ((v >> 18) & 0x7) as u8);
        out.push(0x80 | ((v >> 12) & 0x3f) as u8);
        out.push(0x80 | ((v >> 6) & 0x3f) as u8);
        out.push(0x80 | (v & 0x3f) as u8);
    }
    proof {
        broadcast use vstd::utf8::char_is_scalar;

        assert(out@ =~= encode_scalar(v));
    }
    out
}

proof fn lemma_width2_decode(b0: u8, b1: u8)
    by (bit_vector)
    requires
        0xc0 <= b0 <= 0xdf,
        0x80 <= b1 <= 0xbf,
    ensures
        (((((b0 & 0x1f) as u32)) << 6u32) | ((b1 & 0x3f) as u32)) >= 0x80 <==> b0 >= 0xc2,
        (((((b0 & 0x1f) as u32)) << 6u32) | ((b1 & 0x3f) as u32)) <= 0x7ff,
{
}

proof fn lemma_width3_decode(b0: u8, b1: u8, b2: u8)
    by (bit_vector)
    requires
        0xe0 <= b0 <= 0xef,
        0x80 <= b1 <= 0xbf,
        0x80 <= b2 <= 0xbf,
    ensures
        ((((b0 & 0x0f) as u32) << 12u32) | (((b1 & 0x3f) as u32) << 6u32) | ((b2
            & 0x3f) as u32)) >= 0x800 <==> (b0 != 0xe0 || b1 >= 0xa0),
        (0xd800 <= ((((b0 & 0x0f) as u32) << 12u32) | (((b1 & 0x3f) as u32) << 6u32) | ((b2
            & 0x3f) as u32)) && ((((b0 & 0x0f) as u32) << 12u32) | (((b1 & 0x3f) as u32)
            << 6u32) | ((b2 & 0x3f) as u32)) <= 0xdfff) <==> (b0 == 0xed && b1 >= 0xa0),
        ((((b0 & 0x0f) as u32) << 12u32) | (((b1 & 0x3f) as u32) << 6u32) | ((b2
            & 0x3f) as u32)) <= 0xffff,
{
}

proof fn lemma_width4_decode(b0: u8, b1: u8, b2: u8, b3: u8)
    by (bit_vector)
    requires
        0xf0 <= b0 <= 0xf7,
        0x80 <= b1 <= 0xbf,
        0x80 <= b2 <= 0xbf,
        0x80 <= b3 <= 0xbf,
    ensures
        ((((b0 & 0x7) as u32) << 18u32) | (((b1 & 0x3f) as u32) << 12u32) | (((b2
            & 0x3f) as u32) << 6u32) | ((b3 & 0x3f) as u32)) >= 0x10000 <==> (b0 != 0xf0 || b1
            >= 0x90),
        ((((b0 & 0x7) as u32) << 18u32) | (((b1 & 0x3f) as u32) << 12u32) | (((b2
            & 0x3f) as u32) << 6u32) | ((b3 & 0x3f) as u32)) <= 0x10ffff <==> (b0 < 0xf4 || (b0
            == 0xf4 && b1 <= 0x8f)),
{
}

/// Length of the valid scalar encoding starting at `i`, or 0 when the
/// bytes at `i` do not begin one.
pub fn first_scalar_len(bytes: &[u8], i: usize) -> (r: usize)
    requires
        i < bytes@.len(),
    ensures
        (r > 0) == valid_first_scalar(bytes@.skip(i as int)),
        r > 0 ==> r == length_of_first_scalar(bytes@.skip(i as int)),
        r <= bytes@.len() - i,
        r <= 4,
{
    let ghost s = bytes@.skip(i as int);
    let n = bytes.len();
    let b0 = *vstd::slice::slice_index_get(bytes, i);
    proof {
        assert(s[0] == bytes@[i as int]);
    }
    if b0 < 0x80 {
        1
    } else if b0 < 0xc2 {
        proof {
            if bytes@.len() - i >= 2 && is_continuation_byte(s[1]) && 0xc0 <= b0 {
                lemma_width2_decode(b0, s[1]);
            }
        }
        0
    } else if b0 <= 0xdf {
        if n - i > 1 && is_cont(*vstd::slice::slice_index_get(bytes, i + 1)) {
            proof {
                assert(s[1] == bytes@[i + 1]);
                lemma_width2_decode(b0, s[1]);
            }
            2
        } else {
            0
        }
    } else if b0 <= 0xef {
        if n - i > 2 {
            let b1 = *vstd::slice::slice_index_get(bytes, i + 1);
            let b2 = *vstd::slice::slice_index_get(bytes, i + 2);
            proof {
                assert(s[1] == bytes@[i + 1]);
                assert(s[2] == bytes@[i + 2]);
                if is_continuation_byte(b1) && is_continuation_byte(b2) {
                    lemma_width3_decode(b0, b1, b2);
                }
            }
            if is_cont(b1) && is_cont(b2) && !(b0 == 0xe0 && b1 < 0xa0) && !(b0 == 0xed && b1
                >= 0xa0) {
                3
            } else {
                0
            }
        } else {
            proof {
                if bytes@.len() - i >= 2 {
                    assert(s[1] == bytes@[i + 1]);
                }
            }
            0
        }
    } else if b0 <= 0xf7 {
        if n - i > 3 {
            let b1 = *vstd::slice::slice_index_get(bytes, i + 1);
            let b2 = *vstd::slice::slice_index_get(bytes, i + 2);
            let b3 = *vstd::slice::slice_index_get(bytes, i + 3);
            proof {
                assert(s[1] == bytes@[i + 1]);
                assert(s[2] == bytes@[i + 2]);
                assert(s[3] == bytes@[i + 3]);
                if is_continuation_byte(b1) && is_continuation_byte(b2)
                    && is_continuation_byte(b3) {
                    lemma_width4_decode(b0, b1, b2, b3);
                }
            }
            if is_cont(b1) && is_cont(b2) && is_cont(b3) && !(b0 == 0xf0 && b1 < 0x90) && !(b0
                == 0xf4 && b1 >= 0x90) && b0 < 0xf5 {
                4
            } else {
                0
            }
        } else {
            proof {
                if bytes@.len() - i >= 2 {
                    assert(s[1] == bytes@[i + 1]);
                }
                if bytes@.len() - i >= 3 {
                    assert(s[2] == bytes@[i + 2]);
                }
            }
            0
        }
    } else {
        0
    }
}

/// Exec test for a continuation byte.
fn is_cont(b: u8) -> (r: bool)
    ensures
        r == is_continuation_byte(b),
{
    0x80 <= b && b <= 0xbf
}

/// Whether the bytes form a valid UTF-8 encoding: the executable
/// counterpart of `valid_utf8`.
pub fn validate_utf8(bytes: &[u8]) -> (r: bool)
    ensures
        r == valid_utf8(bytes@),
{
    let n = bytes.len();
    proof {
        assert(bytes@.skip(0) =~= bytes@);
    }
    let mut i: usize = 0;
    while i < n
        invariant
            i <= n,
            n == bytes@.len(),
            valid_utf8(bytes@) == valid_utf8(bytes@.skip(i as int)),
        decreases n - i,
    {
        let l = first_scalar_len(bytes, i);
        if l == 0 {
            return false;
        }
        proof {
            let s = bytes@.skip(i as int);
            assert(pop_first_scalar(s) =~= bytes@.skip(i + l));
        }
        i = i + l;
    }
    proof {
        assert(bytes@.skip(n as int) =~= Seq::<u8>::empty());
    }
    true
}


/// Executable counterpart of [`invalid_step`].
pub fn invalid_step_len(bytes: &[u8], i: usize) -> (r: usize)
    requires
        i < bytes@.len(),
        !valid_first_scalar(bytes@.skip(i as int)),
    ensures
        r == invalid_step(bytes@.skip(i as int)),
        1 <= r <= bytes@.len() - i,
        r <= 3,
{
    let ghost s = bytes@.skip(i as int);
    let n = bytes.len();
    let b0 = *vstd::slice::slice_index_get(bytes, i);
    proof {
        assert(s[0] == bytes@[i as int]);
    }
    if n - i > 1 {
        let b1 = *vstd::slice::slice_index_get(bytes, i + 1);
        proof {
            assert(s[1] == bytes@[i + 1]);
        }
        if second_byte_ok_exec(b0, b1) {
            if n - i > 2 {
                let b2 = *vstd::slice::slice_index_get(bytes, i + 2);
                proof {
                    assert(s[2] == bytes@[i + 2]);
                }
                if 0xf0 <= b0 && b0 <= 0xf4 && is_cont(b2) {
                    3
                } else {
                    2
                }
            } else {
                2
            }
        } else {
            1
        }
    } else {
        1
    }
}

/// Exec test matching [`second_byte_ok`].
fn second_byte_ok_exec(b0: u8, b1: u8) -> (r: bool)
    ensures
        r == second_byte_ok(b0, b1),
{
    if b0 == 0xe0 {
        0xa0 <= b1 && b1 <= 0xbf
    } else if b0 == 0xed {
        0x80 <= b1 && b1 <= 0x9f
    } else if 0xe1 <= b0 && b0 <= 0xef {
        0x80 <= b1 && b1 <= 0xbf
    } else if b0 == 0xf0 {
        0x90 <= b1 && b1 <= 0xbf
    } else if 0xf1 <= b0 && b0 <= 0xf3 {
        0x80 <= b1 && b1 <= 0xbf
    } else if b0 == 0xf4 {
        0x80 <= b1 && b1 <= 0x8f
    } else {
        false
    }
}

/// One unfolding step of [`utf8_lossy`] on a suffix, phrased over
/// positions: processing the scalar or maximal subpart at `i` appends its
/// bytes or the replacement.
pub proof fn lemma_utf8_lossy_step(bytes: Seq<u8>, i: int)
    requires
        0 <= i < bytes.len(),
    ensures
        valid_first_scalar(bytes.skip(i)) ==> utf8_lossy(bytes.skip(i)) == bytes.subrange(
            i,
            i + length_of_first_scalar(bytes.skip(i)),
        ) + utf8_lossy(bytes.skip(i + length_of_first_scalar(bytes.skip(i)))),
        !valid_first_scalar(bytes.skip(i)) ==> utf8_lossy(bytes.skip(i)) == replacement_bytes()
            + utf8_lossy(bytes.skip(i + invalid_step(bytes.skip(i)))),
{
    let s = bytes.skip(i);
    if valid_first_scalar(s) {
        let l = length_of_first_scalar(s);
        assert(take_first_scalar(s) =~= bytes.subrange(i, i + l));
        assert(pop_first_scalar(s) =~= bytes.skip(i + l));
    } else {
        let l = invalid_step(s);
        assert(s.subrange(l, s.len() as int) =~= bytes.skip(i + l));
    }
}

/// The replacement character's encoding is itself a valid scalar
/// encoding.
pub proof fn lemma_replacement_valid()
    ensures
        valid_utf8(replacement_bytes()),
        replacement_bytes() == encode_scalar(0xfffdu32),
        replacement_bytes().len() == 3,
{
    let r = replacement_bytes();
    assert(0xe0 | ((0xfffdu32 >> 12u32) & 0x0f) as u8 == 0xefu8) by (bit_vector);
    assert(0x80 | ((0xfffdu32 >> 6u32) & 0x3f) as u8 == 0xbfu8) by (bit_vector);
    assert(0x80 | (0xfffdu32 & 0x3f) as u8 == 0xbdu8) by (bit_vector);
    assert(r =~= encode_scalar(0xfffdu32));
    assert((((0xefu8 & 0x0f) as u32) << 12u32) | (((0xbfu8 & 0x3f) as u32) << 6u32) | ((0xbdu8
        & 0x3f) as u32) == 0xfffdu32) by (bit_vector);
    assert(valid_first_scalar(r));
    assert(pop_first_scalar(r) =~= Seq::<u8>::empty());
    assert(valid_utf8(Seq::<u8>::empty()));
}

/// The lossy decoding of any byte sequence is valid UTF-8.
pub proof fn lemma_utf8_lossy_valid(s: Seq<u8>)
    ensures
        valid_utf8(utf8_lossy(s)),
    decreases s.len(),
{
    broadcast use vstd::utf8::valid_utf8_concat;

    if s.len() == 0 {
    } else if valid_first_scalar(s) {
        let l = length_of_first_scalar(s);
        let head = take_first_scalar(s);
        lemma_utf8_lossy_valid(pop_first_scalar(s));
        assert(valid_first_scalar(head)) by {
            assert(head.len() == l);
            assert(forall|k: int| 0 <= k < l ==> head[k] == s[k]);
        }
        assert(pop_first_scalar(head) =~= Seq::<u8>::empty());
        assert(valid_utf8(Seq::<u8>::empty()));
        assert(valid_utf8(head));
    } else {
        lemma_replacement_valid();
        lemma_utf8_lossy_valid(s.subrange(invalid_step(s), s.len() as int));
    }
}

/// On already-valid input, lossy decoding is the identity: no byte is
/// rewritten.
pub proof fn lemma_utf8_lossy_identity(s: Seq<u8>)
    requires
        valid_utf8(s),
    ensures
        utf8_lossy(s) == s,
    decreases s.len(),
{
    if s.len() == 0 {
        assert(utf8_lossy(s) =~= s);
    } else {
        lemma_utf8_lossy_identity(pop_first_scalar(s));
        assert(take_first_scalar(s) + pop_first_scalar(s) =~= s);
    }
}

/// The byte length of the lossy decoding, computed in one pass.
pub fn utf8_lossy_len(bytes: &[u8]) -> (r: usize)
    requires
        bytes@.len() * 3 <= usize::MAX,
    ensures
        r == utf8_lossy(bytes@).len(),
        r <= bytes@.len() * 3,
{
    let n = bytes.len();
    proof {
        assert(bytes@.skip(0) =~= bytes@);
    }
    let mut i: usize = 0;
    let mut total: usize = 0;
    while i < n
        invariant
            i <= n,
            n == bytes@.len(),
            n * 3 <= usize::MAX,
            total <= i * 3,
            total + utf8_lossy(bytes@.skip(i as int)).len() == utf8_lossy(bytes@).len(),
        decreases n - i,
    {
        let l = first_scalar_len(bytes, i);
        proof {
            lemma_utf8_lossy_step(bytes@, i as int);
        }
        if l > 0 {
            total = total + l;
            i = i + l;
        } else {
            let step = invalid_step_len(bytes, i);
            total = total + 3;
            i = i + step;
        }
    }
    proof {
        assert(bytes@.skip(n as int) =~= Seq::<u8>::empty());
    }
    total
}

/// Appending one character appends its scalar encoding.
pub proof fn lemma_encode_utf8_push(cs: Seq<char>, c: char)
    ensures
        encode_utf8(cs.push(c)) == encode_utf8(cs) + encode_scalar(c as u32),
    decreases cs.len(),
{
    if cs.len() == 0 {
        assert(cs.push(c)[0] == c);
        assert(cs.push(c).drop_first() =~= Seq::<char>::empty());
        assert(encode_utf8(Seq::<char>::empty()) =~= Seq::<u8>::empty());
        assert(encode_utf8(cs.push(c)) =~= encode_scalar(c as u32));
        assert(encode_utf8(cs) + encode_scalar(c as u32) =~= encode_scalar(c as u32));
    } else {
        lemma_encode_utf8_push(cs.drop_first(), c);
        assert(cs.push(c).drop_first() =~= cs.drop_first().push(c));
        assert(cs.push(c)[0] == cs[0]);
        assert(encode_utf8(cs) + encode_scalar(c as u32) =~= encode_scalar(cs[0] as u32) + (
        encode_utf8(cs.drop_first()) + encode_scalar(c as u32)));
    }
}

/// Repetitions concatenate: `m` copies then `n` copies is `m + n` copies.
pub proof fn lemma_repeat_bytes_add(base: Seq<u8>, m: nat, n: nat)
    ensures
        repeat_bytes(base, m) + repeat_bytes(base, n) == repeat_bytes(base, m + n),
    decreases m,
{
    if m == 0 {
        assert(repeat_bytes(base, 0) + repeat_bytes(base, n) =~= repeat_bytes(base, n));
    } else {
        lemma_repeat_bytes_add(base, (m - 1) as nat, n);
        assert(repeat_bytes(base, m) + repeat_bytes(base, n) =~= base + (repeat_bytes(
            base,
            (m - 1) as nat,
        ) + repeat_bytes(base, n)));
    }
}

/// The length of a repetition.
pub proof fn lemma_repeat_bytes_len(base: Seq<u8>, n: nat)
    ensures
        repeat_bytes(base, n).len() == n * base.len(),
    decreases n,
{
    if n > 0 {
        lemma_repeat_bytes_len(base, (n - 1) as nat);
        assert(repeat_bytes(base, n).len() == base.len() + ((n - 1) as nat) * base.len());
        assert(base.len() + ((n - 1) as nat) * base.len() == n * base.len())
            by (nonlinear_arith)
            requires
                n >= 1,
        ;
    } else {
        assert(repeat_bytes(base, n).len() == 0);
        assert(n * base.len() == 0) by (nonlinear_arith)
            requires
                n == 0,
        ;
    }
}

/// A repetition of a valid encoding is a valid encoding.
pub proof fn lemma_repeat_bytes_valid(base: Seq<u8>, n: nat)
    requires
        valid_utf8(base),
    ensures
        valid_utf8(repeat_bytes(base, n)),
    decreases n,
{
    broadcast use vstd::utf8::valid_utf8_concat;

    if n > 0 {
        lemma_repeat_bytes_valid(base, (n - 1) as nat);
    }
}


/// A repetition of a single byte is the constant sequence.
pub proof fn lemma_repeat_single(b: u8, n: nat)
    ensures
        repeat_bytes(seq![b], n) =~= Seq::new(n, |i: int| b),
    decreases n,
{
    if n > 0 {
        lemma_repeat_single(b, (n - 1) as nat);
        lemma_repeat_bytes_len(seq![b], n);
    }
}

/// Repetition prefixes: the first `k` copies of a `j`-fold repetition.
pub proof fn lemma_repeat_prefix(base: Seq<u8>, j: nat, k: nat)
    requires
        k <= j,
    ensures
        repeat_bytes(base, j).subrange(0, (k * base.len()) as int) == repeat_bytes(base, k),
{
    lemma_repeat_bytes_add(base, k, (j - k) as nat);
    lemma_repeat_bytes_len(base, k);
    lemma_repeat_bytes_len(base, j);
    assert(k * base.len() <= j * base.len()) by (nonlinear_arith)
        requires
            k <= j,
    ;
    assert(repeat_bytes(base, j).subrange(0, (k * base.len()) as int) =~= repeat_bytes(base, k));
}



/// A nonempty valid encoding starts with a leading byte, never a
/// continuation byte.
pub proof fn lemma_valid_starts_with_lead(p: Seq<u8>)
    requires
        valid_utf8(p),
        p.len() > 0,
    ensures
        !is_continuation_byte(p[0]),
{
    assert(valid_first_scalar(p));
}

/// A valid byte-prefix of a valid encoding ends on a character boundary:
/// scalar decoding is determined byte by byte, so the two decompositions
/// agree up to the prefix's end.
pub proof fn lemma_valid_prefix_is_boundary(s: Seq<u8>, p: Seq<u8>)
    requires
        valid_utf8(s),
        valid_utf8(p),
        p.len() <= s.len(),
        p == s.subrange(0, p.len() as int),
    ensures
        vstd::utf8::is_char_boundary(s, p.len() as int),
    decreases p.len(),
{
    if p.len() > 0 {
        let l = length_of_first_scalar(p);
        assert(valid_first_scalar(p));
        assert(valid_first_scalar(s)) by {
            assert(s[0] == p[0]);
            if p.len() >= 2 {
                assert(s[1] == p[1]);
            }
            if p.len() >= 3 {
                assert(s[2] == p[2]);
            }
            if p.len() >= 4 {
                assert(s[3] == p[3]);
            }
        }
        assert(length_of_first_scalar(s) == l);
        let s2 = pop_first_scalar(s);
        let p2 = pop_first_scalar(p);
        assert(p2 =~= s2.subrange(0, p2.len() as int));
        lemma_valid_prefix_is_boundary(s2, p2);
    }
}

/// Relies on std's `str::from_utf8`: on valid UTF-8 input it returns the
/// borrowed string viewing exactly those bytes (the fallback arm is
/// unreachable under the precondition).
#[verifier::external_body]
pub(crate) fn bytes_as_str(v: &[u8]) -> (r: &str)
    requires
        valid_utf8(v@),
    ensures
        r.spec_bytes() == v@,
{
    core::str::from_utf8(v).unwrap_or("")
}

/// Relies on std's `char::from_u32`: for every Unicode scalar value it
/// returns the character with exactly that value (the fallback arm is
/// unreachable under the precondition).
#[verifier::external_body]
pub(crate) fn char_from_u32(v: u32) -> (r: char)
    requires
        vstd::utf8::is_scalar(v),
    ensures
        r as u32 == v,
{
    char::from_u32(v).unwrap_or('\u{fffd}')
}

/// Byte-wise equality of two slices.
pub(crate) fn slice_eq(a: &[u8], b: &[u8]) -> (r: bool)
    ensures
        r == (a@ == b@),
{
    let n = a.len();
    if b.len() != n {
        proof {
            assert(a@.len() != b@.len());
        }
        return false;
    }
    let mut i: usize = 0;
    while i < n
        invariant
            i <= n,
            n == a@.len(),
            n == b@.len(),
            forall|k: int| 0 <= k < i ==> a@[k] == b@[k],
        decreases n - i,
    {
        if *vstd::slice::slice_index_get(a, i) != *vstd::slice::slice_index_get(b, i) {
            return false;
        }
        i = i + 1;
    }
    proof {
        assert(a@ =~= b@);
    }
    true
}

/// String equality through the bytes, since the encoding is injective.
pub(crate) fn str_eq(a: &str, b: &str) -> (r: bool)
    ensures
        r == (a@ == b@),
{
    proof {
        broadcast use vstd::utf8::encode_utf8_valid_utf8;
        broadcast use vstd::utf8::encode_utf8_decode_utf8;

    }
    let r = slice_eq(a.as_bytes(), b.as_bytes());
    proof {
        if a.spec_bytes() == b.spec_bytes() {
            assert(decode_utf8_of(a.spec_bytes()) == decode_utf8_of(b.spec_bytes()));
        }
    }
    r
}

/// Shorthand so the decoding of both sides triggers the round-trip axiom.
pub open spec fn decode_utf8_of(s: Seq<u8>) -> Seq<char> {
    vstd::utf8::decode_utf8(s)
}


} // verus!

//! Like a `String` but on borrowed memory: built on [`BVec<u8>`] with the
//! invariant that the bytes are valid UTF-8 at every publicly observable
//! point. Char-level and validated-string-level operations are the only
//! ways to write, so the invariant is preserved by construction.

use vstd::prelude::*;

use crate::allocator::Allocator;
use crate::bvec::BVec;
use crate::unicode::encode_char;
use vstd::utf8::{decode_utf8, encode_scalar, encode_utf8, valid_utf8};

verus! {

use vstd::string::StringSliceAdditionalSpecFns;

/// The error of [`BString::from_utf8`]: the bytes were not valid UTF-8.
#[derive(Debug, Clone, Copy, PartialEq, Eq, Structural)]
pub struct Utf8Error {}

/// Like a `String` but on borrowed memory. Built on top of [`BVec<u8>`].
pub struct BString {
    vec: BVec<u8>,
}

impl View for BString {
    type V = Seq<u8>;

    closed spec fn view(&self) -> Seq<u8> {
        self.vec@
    }
}

impl BString {
    /// The underlying byte vector, for specification purposes.
    pub closed spec fn spec_vec(&self) -> BVec<u8> {
        self.vec
    }

    /// Byte capacity of the backing buffer.
    pub open spec fn spec_cap(&self) -> usize {
        self.spec_vec().spec_cap()
    }

    /// The backing range in the allocator.
    pub open spec fn spec_block(&self) -> crate::allocator::Allocation {
        self.spec_vec().spec_block()
    }

    /// The string's invariant: a well-formed byte vector holding valid
    /// UTF-8.
    pub open spec fn wf(&self) -> bool {
        &&& self.spec_vec().wf()
        &&& valid_utf8(self@)
    }

    /// The characters the bytes encode.
    pub open spec fn spec_chars(&self) -> Seq<char> {
        decode_utf8(self@)
    }

    /// Whether the allocator admits the growth step for `add` more bytes
    /// over a doubling base of `cap_base`.
    pub open spec fn spec_can_grow<A: Allocator>(
        &self,
        alloc: A,
        cap_base: int,
        add: int,
    ) -> bool {
        self.spec_vec().spec_can_grow(alloc, cap_base, add)
    }

    /// The label on the tin says "empty". You open it. It's empty.
    pub fn empty() -> (r: BString)
        ensures
            r.wf(),
            r@ == Seq::<u8>::empty(),
            r.spec_cap() == 0,
            r.spec_block() == (crate::allocator::Allocation { off: 0, size: 0 }),
    {
        BString { vec: BVec::empty() }
    }

    /// Validates and wraps a byte vector as UTF-8, without copying: on
    /// success the result views the same bytes and backing range; the
    /// error comes exactly when the bytes are not valid UTF-8.
    pub fn from_utf8(vec: BVec<u8>) -> (r: Result<BString, Utf8Error>)
        requires
            vec.wf(),
        ensures
            valid_utf8(vec@) ==> (r matches Ok(s) && s@ == vec@ && s.spec_block()
                == vec.spec_block() && s.spec_cap() == vec.spec_cap() && s.wf()),
            !valid_utf8(vec@) ==> (r matches Err(e) && e == (Utf8Error {  })),
    {
        if crate::unicode::validate_utf8(vec.as_slice()) {
            Ok(BString { vec })
        } else {
            Err(Utf8Error {})
        }
    }

    /// Wraps a byte vector known to hold valid UTF-8; the validity is the
    /// caller's proof obligation rather than a runtime check.
    pub fn from_utf8_unchecked(vec: BVec<u8>) -> (r: BString)
        requires
            vec.wf(),
            valid_utf8(vec@),
        ensures
            r.wf(),
            r@ == vec@,
            r.spec_block() == vec.spec_block(),
            r.spec_cap() == vec.spec_cap(),
    {
        BString { vec }
    }

    /// Length in bytes, not characters.
    pub fn len(&self) -> (r: usize)
        ensures
            r == self@.len(),
    {
        self.vec.len()
    }

    /// Total byte capacity of the backing buffer.
    pub fn capacity(&self) -> (r: usize)
        ensures
            r == self.spec_cap(),
    {
        self.vec.capacity()
    }

    /// True if the string is empty.
    pub fn is_empty(&self) -> (r: bool)
        ensures
            r == (self@.len() == 0),
    {
        self.vec.is_empty()
    }

    /// True if the buffer is full.
    pub fn is_full(&self) -> (r: bool)
        ensures
            r == (self@.len() == self.spec_cap()),
    {
        self.vec.is_full()
    }

    /// The backing range's base offset: the model's address of the buffer,
    /// so callers can observe whether an operation copied.
    pub fn as_ptr(&self) -> (r: usize)
        ensures
            r == self.spec_block().off,
    {
        self.vec.as_ptr()
    }

    /// The raw UTF-8 bytes.
    pub fn as_bytes(&self) -> (r: &[u8])
        ensures
            r@ == self@,
    {
        self.vec.as_slice()
    }

    /// View as a `&str` over the same bytes.
    pub fn as_str(&self) -> (r: &str)
        requires
            self.wf(),
        ensures
            r.spec_bytes() == self@,
            r@ == self.spec_chars(),
    {
        let r = crate::unicode::bytes_as_str(self.vec.as_slice());
        proof {
            broadcast use vstd::utf8::decode_utf8_encode_utf8;
            broadcast use vstd::utf8::encode_utf8_decode_utf8;

        }
        r
    }

    /// Consume the string, handing the bytes back as a standard `String`.
    pub fn into_std_string(self) -> (r: String)
        requires
            self.wf(),
        ensures
            encode_utf8(r@) == self@,
            r@ == self.spec_chars(),
    {
        let r = crate::unicode::bytes_as_str(self.vec.as_slice()).to_owned();
        proof {
            broadcast use vstd::utf8::decode_utf8_encode_utf8;
            broadcast use vstd::utf8::encode_utf8_decode_utf8;

        }
        r
    }

    /// Consume the string, keeping the text alive past it: the model's
    /// counterpart of leaking the `&str` with the arena's lifetime.
    pub fn leak(self) -> (r: String)
        requires
            self.wf(),
        ensures
            encode_utf8(r@) == self@,
            r@ == self.spec_chars(),
    {
        self.into_std_string()
    }

    /// Copies a standard `String`'s bytes into a fresh buffer.
    pub fn from_std_string(s: String) -> (r: BString)
        ensures
            r.wf(),
            r@ == encode_utf8(s@),
            r.spec_chars() == s@,
    {
        let bytes = s.as_str().as_bytes();
        let byte_count = bytes.len();
        proof {
            broadcast use vstd::layout::layout_of_primitives;
            broadcast use vstd::utf8::encode_utf8_valid_utf8;
            broadcast use vstd::utf8::encode_utf8_decode_utf8;

            assert(bytes@.len() == byte_count);
        }
        let vec = BVec::from_slice(bytes);
        BString { vec }
    }

    /// Empties the string. The allocation is kept.
    pub fn clear(&mut self)
        requires
            old(self).wf(),
        ensures
            final(self).wf(),
            final(self)@ == Seq::<u8>::empty(),
            final(self).spec_cap() == old(self).spec_cap(),
            final(self).spec_block() == old(self).spec_block(),
    {
        self.vec.clear();
    }

    /// Ensures space for at least `additional` more bytes, with amortized
    /// growth.
    pub fn reserve<A: Allocator>(&mut self, alloc: &mut A, additional: usize)
        requires
            old(self).wf(),
            old(alloc).wf(),
            additional > old(self).spec_cap() - old(self)@.len() ==> old(self).spec_can_grow(
                *old(alloc),
                old(self).spec_cap() as int,
                additional as int,
            ),
        ensures
            final(self).wf(),
            final(alloc).wf(),
            final(self)@ == old(self)@,
            old(self)@.len() + additional <= final(self).spec_cap(),
            additional <= old(self).spec_cap() - old(self)@.len() ==> *final(self) == *old(self)
                && *final(alloc) == *old(alloc),
    {
        self.vec.reserve(alloc, additional);
    }

    /// Ensures space for at least `additional` more bytes, without the
    /// doubling growth.
    pub fn reserve_exact<A: Allocator>(&mut self, alloc: &mut A, additional: usize)
        requires
            old(self).wf(),
            old(alloc).wf(),
            additional > old(self).spec_cap() - old(self)@.len() ==> old(self).spec_can_grow(
                *old(alloc),
                0,
                additional as int,
            ),
        ensures
            final(self).wf(),
            final(alloc).wf(),
            final(self)@ == old(self)@,
            old(self)@.len() + additional <= final(self).spec_cap(),
            additional <= old(self).spec_cap() - old(self)@.len() ==> *final(self) == *old(self)
                && *final(alloc) == *old(alloc),
    {
        self.vec.reserve_exact(alloc, additional);
    }

    /// Appends a single `char`, encoding it as UTF-8. Reserves four bytes
    /// - the widest encoding - before writing.
    pub fn push<A: Allocator>(&mut self, alloc: &mut A, ch: char)
        requires
            old(self).wf(),
            old(alloc).wf(),
            old(self)@.len() + 4 <= usize::MAX,
            4 > old(self).spec_cap() - old(self)@.len() ==> old(self).spec_can_grow(
                *old(alloc),
                old(self).spec_cap() as int,
                4,
            ),
        ensures
            final(self).wf(),
            final(alloc).wf(),
            final(self)@ == old(self)@ + encode_scalar(ch as u32),
            4 <= old(self).spec_cap() - old(self)@.len() ==> final(self).spec_cap() == old(
                self,
            ).spec_cap() && final(self).spec_block() == old(self).spec_block() && *final(alloc)
                == *old(alloc),
    {
        self.vec.reserve(alloc, 4);
        let enc = encode_char(ch);
        self.vec.extend_from_slice(alloc, enc.as_slice());
        proof {
            broadcast use vstd::utf8::valid_utf8_concat;
            broadcast use vstd::utf8::encode_utf8_valid_utf8;

            assert(seq![ch].drop_first() =~= Seq::<char>::empty());
            assert(encode_utf8(Seq::<char>::empty()) =~= Seq::<u8>::empty());
            assert(encode_utf8(seq![ch]) =~= encode_scalar(ch as u32));
        }
    }

    /// Appends a `&str`.
    pub fn push_str<A: Allocator>(&mut self, alloc: &mut A, string: &str)
        requires
            old(self).wf(),
            old(alloc).wf(),
            old(self)@.len() + string.spec_bytes().len() <= usize::MAX,
            string.spec_bytes().len() > old(self).spec_cap() - old(self)@.len() ==> old(
                self,
            ).spec_can_grow(*old(alloc), old(self).spec_cap() as int, string.spec_bytes().len() as int),
        ensures
            final(self).wf(),
            final(alloc).wf(),
            final(self)@ == old(self)@ + string.spec_bytes(),
            string.spec_bytes().len() <= old(self).spec_cap() - old(self)@.len() ==> final(self).spec_cap() == old(self).spec_cap() && final(self).spec_block() == old(
                self,
            ).spec_block() && *final(alloc) == *old(alloc),
    {
        proof {
            broadcast use vstd::utf8::valid_utf8_concat;
            broadcast use vstd::utf8::encode_utf8_valid_utf8;

        }
        self.vec.extend_from_slice(alloc, string.as_bytes());
    }

    /// Copies a `&str` into a fresh buffer backed by the allocator.
    pub fn from_str<A: Allocator>(alloc: &mut A, s: &str) -> (r: BString)
        requires
            old(alloc).wf(),
            s.spec_bytes().len() > 0 ==> BVec::<u8>::spec_can_grow_empty(
                *old(alloc),
                s.spec_bytes().len() as int,
            ),
        ensures
            final(alloc).wf(),
            r.wf(),
            r@ == s.spec_bytes(),
            r.spec_chars() == s@,
    {
        let mut r = BString::empty();
        if s.len() > 0 {
            r.push_str(alloc, s);
        }
        proof {
            broadcast use vstd::utf8::encode_utf8_decode_utf8;

            if s.spec_bytes().len() == 0 {
                assert(r@ =~= s.spec_bytes());
            }
        }
        r
    }


    /// Appends each character of `chars`, reserving the widest possible
    /// encoding for all of them up front.
    pub fn extend<A: Allocator>(&mut self, alloc: &mut A, chars: Vec<char>)
        requires
            old(self).wf(),
            old(alloc).wf(),
            old(self)@.len() + 4 * chars@.len() <= usize::MAX,
            4 * chars@.len() > old(self).spec_cap() - old(self)@.len() ==> old(self).spec_can_grow(
                *old(alloc),
                old(self).spec_cap() as int,
                4 * chars@.len() as int,
            ),
        ensures
            final(self).wf(),
            final(alloc).wf(),
            final(self)@ == old(self)@ + encode_utf8(chars@),
    {
        let n = chars.len();
        self.reserve(alloc, 4 * n);
        proof {
            assert(chars@.subrange(0, 0) =~= Seq::<char>::empty());
            assert(encode_utf8(Seq::<char>::empty()) =~= Seq::<u8>::empty());
            assert(self@ =~= old(self)@ + encode_utf8(chars@.subrange(0, 0)));
        }
        let mut i: usize = 0;
        while i < n
            invariant
                i <= n,
                n == chars@.len(),
                alloc.wf(),
                self.wf(),
                self@ == old(self)@ + encode_utf8(chars@.subrange(0, i as int)),
                self@.len() + 4 * (n - i) <= self.spec_cap(),
                self@.len() + 4 * (n - i) <= usize::MAX,
            decreases n - i,
        {
            let c = chars[i];
            let ghost done = chars@.subrange(0, i as int);
            self.push(alloc, c);
            i = i + 1;
            proof {
                crate::unicode::lemma_encode_utf8_push(done, c);
                assert(done.push(c) =~= chars@.subrange(0, i as int));
            }
        }
        proof {
            assert(chars@.subrange(0, n as int) =~= chars@);
        }
    }

    /// Appends a UTF-16 sequence, replacing unpaired surrogates with
    /// U+FFFD. Reserves the worst case - four bytes per unit - up front.
    #[verifier::rlimit(60)]
    pub fn push_utf16_lossy<A: Allocator>(&mut self, alloc: &mut A, string: &[u16])
        requires
            old(self).wf(),
            old(alloc).wf(),
            old(self)@.len() + 4 * string@.len() <= usize::MAX,
            4 * string@.len() > old(self).spec_cap() - old(self)@.len() ==> old(
                self,
            ).spec_can_grow(*old(alloc), old(self).spec_cap() as int, 4 * string@.len() as int),
        ensures
            final(self).wf(),
            final(alloc).wf(),
            final(self)@ == old(self)@ + encode_utf8(
                crate::unicode::utf16_lossy_chars(string@),
            ),
    {
        let n = string.len();
        self.reserve(alloc, 4 * n);
        let ghost whole = crate::unicode::utf16_lossy_chars(string@);
        let ghost done: Seq<char> = Seq::empty();
        proof {
            broadcast use vstd::utf8::char_u32_cast;

            assert(encode_utf8(Seq::<char>::empty()) =~= Seq::<u8>::empty());
            assert(self@ =~= old(self)@ + encode_utf8(done));
            assert(string@.skip(0) =~= string@);
        }
        let mut i: usize = 0;
        while i < n
            invariant
                i <= n,
                n == string@.len(),
                alloc.wf(),
                self.wf(),
                whole == crate::unicode::utf16_lossy_chars(string@),
                self@ == old(self)@ + encode_utf8(done),
                whole == done + crate::unicode::utf16_lossy_chars(string@.skip(i as int)),
                self@.len() + 4 * (n - i) <= self.spec_cap(),
                self@.len() + 4 * (n - i) <= usize::MAX,
            decreases n - i,
        {
            proof {
                broadcast use vstd::utf8::char_u32_cast;

                assert(string@.skip(i as int)[0] == string@[i as int]);
            }
            let u = *vstd::slice::slice_index_get(string, i);
            let ghost rest = string@.skip(i as int);
            let ghost done_pre = done;
            if u < 0xd800 || u >= 0xe000 {
                let c = crate::unicode::char_from_u32(u as u32);
                self.push(alloc, c);
                proof {
                    done = done.push(c);
                    crate::unicode::lemma_encode_utf8_push(done_pre, c);
                    assert(rest.drop_first() =~= string@.skip(i + 1));
                    assert(crate::unicode::utf16_lossy_chars(rest) == seq![c]
                        + crate::unicode::utf16_lossy_chars(string@.skip(i + 1)));
                    assert(done + crate::unicode::utf16_lossy_chars(string@.skip(i + 1))
                        =~= done_pre + crate::unicode::utf16_lossy_chars(rest));
                }
                i = i + 1;
            } else if u < 0xdc00 && i + 1 < n && 0xdc00 <= *vstd::slice::slice_index_get(
                string,
                i + 1,
            ) && *vstd::slice::slice_index_get(string, i + 1) < 0xe000 {
                let lo_unit = *vstd::slice::slice_index_get(string, i + 1);
                let hi: u32 = (u - 0xd800) as u32;
                let lo: u32 = (lo_unit - 0xdc00) as u32;
                let combined: u32 = 0x10000 + hi * 0x400 + lo;
                let c = crate::unicode::char_from_u32(combined);
                self.push(alloc, c);
                proof {
                    done = done.push(c);
                    crate::unicode::lemma_encode_utf8_push(done_pre, c);
                    assert(rest[1] == string@[i + 1]);
                    assert(rest.subrange(2, rest.len() as int) =~= string@.skip(i + 2));
                    assert(crate::unicode::utf16_lossy_chars(rest) == seq![c]
                        + crate::unicode::utf16_lossy_chars(string@.skip(i + 2)));
                    assert(done + crate::unicode::utf16_lossy_chars(string@.skip(i + 2))
                        =~= done_pre + crate::unicode::utf16_lossy_chars(rest));
                }
                i = i + 2;
            } else {
                let c = crate::unicode::char_from_u32(0xfffd);
                self.push(alloc, c);
                proof {
                    done = done.push(c);
                    crate::unicode::lemma_encode_utf8_push(done_pre, c);
                    assert(rest.drop_first() =~= string@.skip(i + 1));
                    assert(c == '\u{fffd}');
                    assert(crate::unicode::utf16_lossy_chars(rest) == seq![c]
                        + crate::unicode::utf16_lossy_chars(string@.skip(i + 1)));
                    assert(done + crate::unicode::utf16_lossy_chars(string@.skip(i + 1))
                        =~= done_pre + crate::unicode::utf16_lossy_chars(rest));
                }
                i = i + 1;
            }
        }
        proof {
            assert(string@.skip(n as int) =~= Seq::<u16>::empty());
            assert(crate::unicode::utf16_lossy_chars(Seq::<u16>::empty()) =~= Seq::<char>::empty());
            assert(done =~= whole);
        }
    }

    /// Decodes UTF-16 into a fresh string, replacing unpaired surrogates
    /// with U+FFFD.
    pub fn from_utf16_lossy<A: Allocator>(alloc: &mut A, string: &[u16]) -> (r: BString)
        requires
            old(alloc).wf(),
            4 * string@.len() <= usize::MAX,
            string@.len() > 0 ==> BVec::<u8>::spec_can_grow_empty(
                *old(alloc),
                4 * string@.len() as int,
            ),
        ensures
            final(alloc).wf(),
            r.wf(),
            r@ == encode_utf8(crate::unicode::utf16_lossy_chars(string@)),
    {
        let mut r = BString::empty();
        r.push_utf16_lossy(alloc, string);
        proof {
            assert(r@ =~= encode_utf8(crate::unicode::utf16_lossy_chars(string@)));
        }
        r
    }

    /// Replaces the byte range `[start, end)` with a new string. Both
    /// bounds must fall on character boundaries - a caller obligation here
    /// rather than a checked panic - so the result is valid UTF-8 by
    /// construction.
    pub fn replace_range<A: Allocator>(
        &mut self,
        alloc: &mut A,
        start: usize,
        end: usize,
        replace_with: &str,
    )
        requires
            old(self).wf(),
            old(alloc).wf(),
            vstd::utf8::is_char_boundary(old(self)@, start as int),
            vstd::utf8::is_char_boundary(old(self)@, end as int),
            old(self)@.len() + replace_with.spec_bytes().len() <= usize::MAX,
            ({
                let del = if end >= start {
                    end - start
                } else {
                    0
                };
                replace_with.spec_bytes().len() > del ==> (replace_with.spec_bytes().len() - del
                    > old(self).spec_cap() - old(self)@.len() ==> old(self).spec_can_grow(
                    *old(alloc),
                    old(self).spec_cap() as int,
                    replace_with.spec_bytes().len() - del,
                ))
            }),
        ensures
            final(self).wf(),
            final(alloc).wf(),
            ({
                let del = if end >= start {
                    end - start
                } else {
                    0
                };
                final(self)@ == old(self)@.subrange(0, start as int) + replace_with.spec_bytes()
                    + old(self)@.subrange(start + del, old(self)@.len() as int)
            }),
    {
        proof {
            broadcast use vstd::utf8::is_char_boundary_start_end_of_seq;

            lemma_boundary_in_range(self@, start as int);
            lemma_boundary_in_range(self@, end as int);
        }
        self.vec.replace_range(alloc, start, end, replace_with.as_bytes());
        proof {
            broadcast use vstd::utf8::encode_utf8_valid_utf8;

            let pre = old(self)@;
            let del: int = if end >= start {
                end - start
            } else {
                0
            };
            let head = pre.subrange(0, start as int);
            let mid = replace_with.spec_bytes();
            let tail = pre.subrange(start + del, pre.len() as int);
            vstd::utf8::valid_utf8_split(pre, start as int);
            vstd::utf8::valid_utf8_split(pre, start + del);
            assert(valid_utf8(head));
            assert(valid_utf8(tail));
            assert(valid_utf8(mid));
            vstd::utf8::valid_utf8_concat(head, mid);
            vstd::utf8::valid_utf8_concat(head + mid, tail);
            assert(self@ == head + mid + tail);
        }
    }


    /// Finds `old` in the string and replaces its first occurrence with
    /// `new`; without an occurrence the string is untouched.
    pub fn replace_once_in_place<A: Allocator>(&mut self, alloc: &mut A, old_s: &str, new_s: &str)
        requires
            old(self).wf(),
            old(alloc).wf(),
            old(self)@.len() + new_s.spec_bytes().len() <= usize::MAX,
            new_s.spec_bytes().len() > old_s.spec_bytes().len() ==> (new_s.spec_bytes().len()
                - old_s.spec_bytes().len() > old(self).spec_cap() - old(self)@.len() ==> old(
                self,
            ).spec_can_grow(
                *old(alloc),
                old(self).spec_cap() as int,
                new_s.spec_bytes().len() - old_s.spec_bytes().len(),
            )),
        ensures
            final(self).wf(),
            final(alloc).wf(),
            (forall|j: int| !occurs_at(old(self)@, old_s.spec_bytes(), j)) ==> *final(self)
                == *old(self) && *final(alloc) == *old(alloc),
            (exists|j: int| occurs_at(old(self)@, old_s.spec_bytes(), j)) ==> (exists|i: int|
                {
                    &&& #[trigger] occurs_at(old(self)@, old_s.spec_bytes(), i)
                    &&& forall|j: int| 0 <= j < i ==> !occurs_at(old(self)@, old_s.spec_bytes(), j)
                    &&& final(self)@ == old(self)@.subrange(0, i) + new_s.spec_bytes() + old(
                        self,
                    )@.subrange(i + old_s.spec_bytes().len(), old(self)@.len() as int)
                }),
    {
        let found = find_sub(self.vec.as_slice(), old_s.as_bytes());
        match found {
            None => {
            },
            Some(beg) => {
                let old_len = old_s.len();
                proof {
                    broadcast use vstd::utf8::encode_utf8_valid_utf8;
                    broadcast use vstd::utf8::is_char_boundary_start_end_of_seq;

                    let hay = self@;
                    let needle = old_s.spec_bytes();
                    let i = beg as int;
                    if needle.len() == 0 {
                        assert(i == 0) by {
                            assert(occurs_at(hay, needle, 0));
                        }
                    } else {
                        crate::unicode::lemma_valid_starts_with_lead(needle);
                        assert(hay[i] == needle[0]);
                        vstd::utf8::is_char_boundary_iff_not_is_continuation_byte(hay, i);
                        vstd::utf8::valid_utf8_split(hay, i);
                        let tail = hay.subrange(i, hay.len() as int);
                        assert(needle =~= tail.subrange(0, needle.len() as int));
                        crate::unicode::lemma_valid_prefix_is_boundary(tail, needle);
                        if i + needle.len() < hay.len() {
                            vstd::utf8::is_char_boundary_iff_not_is_continuation_byte(
                                tail,
                                needle.len() as int,
                            );
                            assert(tail[needle.len() as int] == hay[i + needle.len()]);
                            vstd::utf8::is_char_boundary_iff_not_is_continuation_byte(
                                hay,
                                i + needle.len(),
                            );
                        }
                    }
                }
                self.replace_range(alloc, beg, beg + old_len, new_s);
            },
        }
    }

    /// Validates UTF-8, replacing invalid sequences with U+FFFD per
    /// maximal subpart. A zero-copy fast path: already-valid input is
    /// returned as-is, same bytes and same backing range, with no
    /// allocator involvement; only actually-invalid input is rescanned
    /// into a fresh buffer sized up front.
    pub fn from_utf8_lossy<A: Allocator>(alloc: &mut A, vec: BVec<u8>) -> (r: BString)
        requires
            vec.wf(),
            old(alloc).wf(),
            vec@.len() * 3 <= usize::MAX,
            !valid_utf8(vec@) ==> BVec::<u8>::spec_can_grow_empty(
                *old(alloc),
                crate::unicode::utf8_lossy(vec@).len() as int,
            ),
        ensures
            final(alloc).wf(),
            r.wf(),
            r@ == crate::unicode::utf8_lossy(vec@),
            valid_utf8(vec@) ==> r@ == vec@ && r.spec_block() == vec.spec_block() && r.spec_cap()
                == vec.spec_cap() && *final(alloc) == *old(alloc),
    {
        if crate::unicode::validate_utf8(vec.as_slice()) {
            proof {
                crate::unicode::lemma_utf8_lossy_identity(vec@);
            }
            BString { vec }
        } else {
            let bytes = vec.as_slice();
            let n = bytes.len();
            let total = crate::unicode::utf8_lossy_len(bytes);
            let mut rep: Vec<u8> = Vec::new();
            rep.push(0xef);
            rep.push(0xbf);
            rep.push(0xbd);
            proof {
                assert(rep@ =~= crate::unicode::replacement_bytes());
                assert(bytes@.skip(0) =~= bytes@);
            }
            let mut out = BVec::<u8>::empty();
            out.reserve_exact(alloc, total);
            let ghost cap_g = out.spec_cap();
            let ghost block_g = out.spec_block();
            let mut i: usize = 0;
            while i < n
                invariant
                    i <= n,
                    n == bytes@.len(),
                    bytes@ == vec@,
                    rep@ == crate::unicode::replacement_bytes(),
                    alloc.wf(),
                    out.wf(),
                    out.spec_cap() == cap_g,
                    out.spec_block() == block_g,
                    out@ + crate::unicode::utf8_lossy(bytes@.skip(i as int))
                        == crate::unicode::utf8_lossy(bytes@),
                    out@.len() + crate::unicode::utf8_lossy(bytes@.skip(i as int)).len() == total,
                    total <= cap_g,
                    total <= usize::MAX,
                decreases n - i,
            {
                let l = crate::unicode::first_scalar_len(bytes, i);
                proof {
                    crate::unicode::lemma_utf8_lossy_step(bytes@, i as int);
                }
                if l > 0 {
                    let chunk = vstd::slice::slice_subrange(bytes, i, i + l);
                    out.extend_from_slice(alloc, chunk);
                    i = i + l;
                } else {
                    let step = crate::unicode::invalid_step_len(bytes, i);
                    out.extend_from_slice(alloc, rep.as_slice());
                    i = i + step;
                }
            }
            proof {
                assert(bytes@.skip(n as int) =~= Seq::<u8>::empty());
                assert(out@ =~= crate::unicode::utf8_lossy(vec@));
                crate::unicode::lemma_utf8_lossy_valid(vec@);
            }
            BString { vec: out }
        }
    }

    /// Appends `total_copies` copies of `ch`. ASCII characters go through
    /// the byte-level fill; wider characters are appended once and then
    /// doubled from the string's own tail until the target length is
    /// reached, so the cost is linear in the bytes produced.
    pub fn push_repeat<A: Allocator>(&mut self, alloc: &mut A, ch: char, total_copies: usize)
        requires
            old(self).wf(),
            old(alloc).wf(),
            old(self)@.len() + 4 * total_copies <= usize::MAX,
            ({
                let added = encode_scalar(ch as u32).len() * total_copies;
                added > old(self).spec_cap() - old(self)@.len() ==> old(self).spec_can_grow(
                    *old(alloc),
                    old(self).spec_cap() as int,
                    added as int,
                )
            }),
        ensures
            final(self).wf(),
            final(alloc).wf(),
            final(self)@ == old(self)@ + crate::unicode::repeat_bytes(
                encode_scalar(ch as u32),
                total_copies as nat,
            ),
    {
        let enc = encode_char(ch);
        let ghost base = encode_scalar(ch as u32);
        proof {
            broadcast use vstd::utf8::valid_utf8_concat;
            broadcast use vstd::utf8::encode_utf8_valid_utf8;

            assert(seq![ch].drop_first() =~= Seq::<char>::empty());
            assert(encode_utf8(Seq::<char>::empty()) =~= Seq::<u8>::empty());
            assert(encode_utf8(seq![ch]) =~= base);
        }
        if total_copies == 0 {
            proof {
                assert(old(self)@ + crate::unicode::repeat_bytes(base, 0) =~= old(self)@);
            }
            return ;
        }
        let el = enc.len();
        if el == 1 {
            proof {
                let bl = base.len();
                assert(bl == 1);
                assert(bl * total_copies == total_copies as int) by (nonlinear_arith)
                    requires
                        bl == 1,
                ;
            }
            self.vec.push_repeat(alloc, enc[0], total_copies);
            proof {
                crate::unicode::lemma_repeat_single(base[0], total_copies as nat);
                assert(base =~= seq![base[0]]);
                crate::unicode::lemma_repeat_bytes_valid(base, total_copies as nat);
                assert(final(self)@ == old(self)@ + crate::unicode::repeat_bytes(
                    base,
                    total_copies as nat,
                ));
            }
        } else {
            let initial_len = self.vec.len();
            proof {
                crate::unicode::lemma_repeat_bytes_len(base, total_copies as nat);
                crate::unicode::lemma_repeat_bytes_valid(base, total_copies as nat);
                assert(el * total_copies <= 4 * total_copies) by (nonlinear_arith)
                    requires
                        el <= 4,
                        total_copies >= 0,
                ;
                assert(el <= el * total_copies) by (nonlinear_arith)
                    requires
                        el >= 1,
                        total_copies >= 1,
                ;
            }
            let added = el * total_copies;
            let final_len = initial_len + added;
            self.vec.reserve(alloc, added);
            let ghost cap_g = self.vec.spec_cap();
            let ghost block_g = self.vec.spec_block();
            self.vec.extend_from_slice(alloc, enc.as_slice());
            let ghost copies: nat = 1;
            proof {
                assert(crate::unicode::repeat_bytes(base, 0) =~= Seq::<u8>::empty());
                assert(crate::unicode::repeat_bytes(base, 1) =~= base);
                crate::unicode::lemma_repeat_bytes_len(base, 1);
            }
            while self.vec.len() != final_len
                invariant
                    alloc.wf(),
                    self.vec.wf(),
                    self.vec@.len() <= final_len,
                    self.vec.spec_cap() == cap_g,
                    self.vec.spec_block() == block_g,
                    2 <= el <= 4,
                    el == base.len(),
                    added == el * total_copies,
                    initial_len == old(self)@.len(),
                    final_len == initial_len + added,
                    final_len <= cap_g,
                    1 <= copies <= total_copies,
                    self.vec@ == old(self)@ + crate::unicode::repeat_bytes(base, copies),
                    self.vec@.len() == initial_len + el * copies,
                decreases final_len - self.vec@.len(),
            {
                let len_now = self.vec.len();
                let end = if final_len - len_now + initial_len <= len_now {
                    final_len - len_now + initial_len
                } else {
                    len_now
                };
                let ghost k: nat = if total_copies - copies <= copies {
                    (total_copies - copies) as nat
                } else {
                    copies
                };
                proof {
                    assert(el * copies != el * total_copies);
                    assert(copies == total_copies ==> el * copies == el * total_copies)
                        by (nonlinear_arith);
                    assert(copies < total_copies);
                    assert(k >= 1);
                    assert(end - initial_len == k * el) by (nonlinear_arith)
                        requires
                            k == (if total_copies - copies <= copies {
                                total_copies - copies
                            } else {
                                copies as int
                            }),
                            end == (if final_len - len_now + initial_len <= len_now {
                                final_len - len_now + initial_len
                            } else {
                                len_now as int
                            }),
                            len_now == initial_len + el * copies,
                            final_len == initial_len + el * total_copies,
                            copies < total_copies,
                            el >= 2,
                    ;
                    crate::unicode::lemma_repeat_prefix(base, copies, k);
                    crate::unicode::lemma_repeat_bytes_len(base, k);
                    assert(k * el == k * base.len());
                    assert(self.vec@.subrange(initial_len as int, end as int)
                        =~= crate::unicode::repeat_bytes(base, copies).subrange(
                        0,
                        (k * el) as int,
                    ));
                }
                self.vec.extend_from_within(alloc, initial_len, end);
                proof {
                    crate::unicode::lemma_repeat_bytes_add(base, copies, k);
                    assert(self.vec@ =~= old(self)@ + crate::unicode::repeat_bytes(
                        base,
                        copies + k,
                    ));
                    crate::unicode::lemma_repeat_bytes_len(base, copies + k);
                    assert((copies + k) * el == el * (copies + k)) by (nonlinear_arith);
                    assert(el * (copies + k) == el * copies + k * el) by (nonlinear_arith);
                    assert(el * (copies + k) <= el * total_copies) by (nonlinear_arith)
                        requires
                            copies + k <= total_copies,
                            el >= 0,
                    ;
                }
                proof {
                    copies = copies + k;
                }
            }
            proof {
                assert(el * copies == el * total_copies);
                assert(copies == total_copies) by (nonlinear_arith)
                    requires
                        el * copies == el * total_copies,
                        el >= 2,
                        copies >= 0,
                        total_copies >= 0,
                ;
            }
        }
    }
}


/// A character boundary index of a valid sequence lies within it.
proof fn lemma_boundary_in_range(bytes: Seq<u8>, index: int)
    requires
        valid_utf8(bytes),
        vstd::utf8::is_char_boundary(bytes, index),
    ensures
        0 <= index <= bytes.len(),
    decreases bytes.len(),
{
    if index != 0 {
        if index < 0 || bytes.len() < index {
        } else {
            lemma_boundary_in_range(
                vstd::utf8::pop_first_scalar(bytes),
                index - vstd::utf8::length_of_first_scalar(bytes),
            );
        }
    }
}


/// `needle` occurs in `hay` at position `i`.
pub open spec fn occurs_at(hay: Seq<u8>, needle: Seq<u8>, i: int) -> bool {
    &&& 0 <= i
    &&& i + needle.len() <= hay.len()
    &&& forall|j: int| 0 <= j < needle.len() ==> hay[i + j] == needle[j]
}

/// Whether `needle` matches `hay` at `i`.
fn match_at(hay: &[u8], needle: &[u8], i: usize) -> (r: bool)
    requires
        i + needle@.len() <= hay@.len(),
    ensures
        r == occurs_at(hay@, needle@, i as int),
{
    let m = needle.len();
    let hl = hay.len();
    let mut k: usize = 0;
    while k < m
        invariant
            k <= m,
            m == needle@.len(),
            hl == hay@.len(),
            i + m <= hay@.len(),
            forall|j: int| 0 <= j < k ==> hay@[i + j] == needle@[j],
        decreases m - k,
    {
        if *vstd::slice::slice_index_get(hay, i + k) != *vstd::slice::slice_index_get(needle, k) {
            proof {
                assert(!occurs_at(hay@, needle@, i as int));
            }
            return false;
        }
        k = k + 1;
    }
    true
}

/// The first position where `needle` occurs in `hay`, if any.
fn find_sub(hay: &[u8], needle: &[u8]) -> (r: Option<usize>)
    ensures
        match r {
            Some(i) => occurs_at(hay@, needle@, i as int) && forall|j: int|
                0 <= j < i ==> !occurs_at(hay@, needle@, j),
            None => forall|j: int| !occurs_at(hay@, needle@, j),
        },
{
    let hn = hay.len();
    let nn = needle.len();
    if nn > hn {
        return None;
    }
    let last = hn - nn;
    let mut i: usize = 0;
    while i <= last
        invariant
            i <= last + 1,
            last == hay@.len() - needle@.len(),
            hn == hay@.len(),
            nn == needle@.len(),
            forall|j: int| 0 <= j < i ==> !occurs_at(hay@, needle@, j),
        decreases last + 1 - i,
    {
        if match_at(hay, needle, i) {
            return Some(i);
        }
        i = i + 1;
    }
    None
}

} // verus!

//! The document list of the editor: which files are open, which one is
//! active, and the bookkeeping around opening and naming them.
//!
//! The text buffer itself is an external collaborator of this core; a
//! document here carries only the buffer settings this module reads and
//! writes. File input and output stay at the application boundary, which
//! hands paths and file identities in as plain values.

use vstd::prelude::*;

use crate::helpers::{CoordType, Point};
use vstd::utf8::{encode_utf8, valid_utf8};

verus! {

use vstd::string::StringSliceAdditionalSpecFns;

/// The buffer settings the document manager reads and writes. The buffer's
/// text and layout live outside this core.
#[derive(Debug, Clone, PartialEq, Eq, Structural)]
pub struct TextBufferState {
    pub dirty: bool,
    pub ruler: CoordType,
    pub insert_final_newline: bool,
    pub margin_enabled: bool,
    pub line_highlight_enabled: bool,
    pub cursor: Point,
}

impl TextBufferState {
    /// Sets the right-margin ruler column.
    pub fn set_ruler(&mut self, ruler: CoordType)
        ensures
            *final(self) == (TextBufferState { ruler, ..*old(self) }),
    {
        self.ruler = ruler;
    }

    /// Moves the cursor to a logical position.
    pub fn cursor_move_to_logical(&mut self, pos: Point)
        ensures
            *final(self) == (TextBufferState { cursor: pos, ..*old(self) }),
    {
        self.cursor = pos;
    }

    /// Requests a relayout. The layout itself belongs to the text buffer
    /// outside this core, so the settings are untouched.
    pub fn reflow(&mut self)
        ensures
            *final(self) == *old(self),
    {
    }
}

/// One open document: its buffer settings and its place in the file
/// system, if it has one.
pub struct Document {
    pub buffer: TextBufferState,
    pub path: Option<String>,
    pub dir: Option<String>,
    pub filename: String,
    pub file_id: Option<u64>,
    pub new_file_counter: usize,
}

impl Document {
    /// Records the document's path, splitting it at the last separator
    /// into directory and file name, and updates the buffer's file mode.
    pub fn set_path(&mut self, path: String)
        ensures
            ({
                let bytes = encode_utf8(path@);
                let split = match last_colon_like(bytes, bytes.len() as int, 0x2f) {
                    Some(i) => i + 1,
                    None => 0,
                };
                &&& encode_utf8(final(self).filename@) == bytes.subrange(
                    split,
                    bytes.len() as int,
                )
                &&& final(self).dir matches Some(d) && encode_utf8(d@) == bytes.subrange(
                    0,
                    (if split > 0 {
                        split - 1
                    } else {
                        0
                    }),
                )
                &&& final(self).path == Some(path)
                &&& final(self).buffer.ruler == (if final(self).filename@
                    == "COMMIT_EDITMSG"@ {
                    72int
                } else {
                    0int
                })
                &&& final(self).file_id == old(self).file_id
                &&& final(self).new_file_counter == old(self).new_file_counter
            }),
    {
        proof {
            broadcast use vstd::utf8::encode_utf8_valid_utf8;
            broadcast use vstd::utf8::encode_utf8_decode_utf8;
            broadcast use vstd::utf8::decode_utf8_encode_utf8;
            broadcast use vstd::utf8::is_char_boundary_iff_not_is_continuation_byte;

        }
        let bytes = path.as_str().as_bytes();
        let n = bytes.len();
        let split = match find_byte_rev(bytes, n, 0x2f) {
            Some(i) => i + 1,
            None => 0,
        };
        let dir_end = if split > 0 {
            split - 1
        } else {
            0
        };
        proof {
            if split == 0 {
                assert(bytes@.subrange(0, n as int) =~= bytes@);
                assert(bytes@.subrange(0, 0) =~= Seq::<u8>::empty());
                assert(valid_utf8(Seq::<u8>::empty()));
            } else {
                let idx = split - 1;
                lemma_last_colon_found(bytes@, n as int, 0x2f);
                assert(bytes@[idx as int] == 0x2f);
                vstd::utf8::is_char_boundary_iff_not_is_continuation_byte(bytes@, idx as int);
                vstd::utf8::valid_utf8_split(bytes@, idx as int);
                let tail = bytes@.subrange(idx as int, n as int);
                assert(valid_utf8(tail));
                assert(vstd::utf8::is_leading_byte_width_1(tail[0]));
                assert(vstd::utf8::length_of_first_scalar(tail) == 1);
                assert(bytes@.subrange(split as int, n as int)
                    =~= vstd::utf8::pop_first_scalar(tail));
                assert(valid_utf8(bytes@.subrange(split as int, n as int)));
            }
        }
        let name_part = vstd::slice::slice_subrange(bytes, split, n);
        let dir_part = vstd::slice::slice_subrange(bytes, 0, dir_end);
        self.filename = bytes_to_string(name_part);
        self.dir = Some(bytes_to_string(dir_part));
        self.path = Some(path);
        self.update_file_mode();
    }

    /// Sets the ruler for the special commit-message file name.
    pub fn update_file_mode(&mut self)
        ensures
            *final(self) == (Document {
                buffer: TextBufferState {
                    ruler: (if old(self).filename@ == "COMMIT_EDITMSG"@ {
                        72 as CoordType
                    } else {
                        0 as CoordType
                    }),
                    ..old(self).buffer
                },
                ..*old(self)
            }),
    {
        proof {
            reveal_strlit("COMMIT_EDITMSG");
        }
        let ruler: CoordType = if crate::unicode::str_eq(self.filename.as_str(), "COMMIT_EDITMSG") {
            72
        } else {
            0
        };
        self.buffer.set_ruler(ruler);
    }
}

/// The open documents, the last one active.
pub struct DocumentManager {
    list: Vec<Document>,
}

impl DocumentManager {
    /// The documents, for specification purposes.
    pub closed spec fn docs(&self) -> Seq<Document> {
        self.list@
    }

    pub fn new() -> (r: DocumentManager)
        ensures
            r.docs() == Seq::<Document>::empty(),
    {
        DocumentManager { list: Vec::new() }
    }

    /// How many documents are open.
    pub fn len(&self) -> (r: usize)
        ensures
            r == self.docs().len(),
    {
        self.list.len()
    }

    /// The active document: the last of the list.
    pub fn active(&self) -> (r: Option<&Document>)
        ensures
            self.docs().len() == 0 ==> r is None,
            self.docs().len() > 0 ==> (r matches Some(d) && *d == self.docs().last()),
    {
        let n = self.list.len();
        if n == 0 {
            None
        } else {
            Some(&self.list[n - 1])
        }
    }

    /// The active document, for mutation; the list must be non-empty -
    /// check [`Self::len`] first where that is not known.
    pub fn active_mut(&mut self) -> (r: &mut Document)
        requires
            old(self).docs().len() > 0,
        ensures
            *r == old(self).docs().last(),
            final(self).docs() == old(self).docs().update(
                old(self).docs().len() - 1,
                *final(r),
            ),
    {
        let n = self.list.len();
        vstd::std_specs::vec::vec_index_mut(&mut self.list, n - 1)
    }

    /// Closes the active document.
    pub fn remove_active(&mut self)
        ensures
            old(self).docs().len() == 0 ==> final(self).docs() == old(self).docs(),
            old(self).docs().len() > 0 ==> final(self).docs() == old(self).docs().drop_last(),
    {
        let popped = self.list.pop();
        proof {
            if old(self).docs().len() > 0 {
                assert(self.list@ =~= old(self).docs().drop_last());
            }
        }
    }

    /// Opens a fresh untitled document and makes it active.
    pub fn add_untitled(&mut self)
        requires
            max_new_file_counter(old(self).docs()) < usize::MAX,
        ensures
            final(self).docs().len() == old(self).docs().len() + 1,
            final(self).docs().drop_last() == old(self).docs(),
            ({
                let d = final(self).docs().last();
                &&& d.path is None
                &&& d.file_id is None
                &&& d.new_file_counter == max_new_file_counter(old(self).docs()) + 1
                &&& d.filename@ == untitled_name(d.new_file_counter)
                &&& d.buffer == fresh_buffer()
            }),
    {
        let buffer = Self::create_buffer();
        let mut doc = Document {
            buffer,
            path: None,
            dir: None,
            filename: String::new(),
            file_id: None,
            new_file_counter: 0,
        };
        self.gen_untitled_name(&mut doc);
        self.list.push(doc);
        proof {
            assert(final(self).docs().drop_last() =~= old(self).docs());
        }
    }

    /// Names a fresh document `Untitled-<n>.txt`, with `n` one past the
    /// largest counter any open document carries.
    pub fn gen_untitled_name(&self, doc: &mut Document)
        requires
            max_new_file_counter(self.docs()) < usize::MAX,
        ensures
            final(doc).new_file_counter == max_new_file_counter(self.docs()) + 1,
            final(doc).filename@ == untitled_name(final(doc).new_file_counter),
            final(doc).buffer == old(doc).buffer,
            final(doc).path == old(doc).path,
            final(doc).dir == old(doc).dir,
            final(doc).file_id == old(doc).file_id,
    {
        let n = self.list.len();
        let mut counter: usize = 0;
        let mut i: usize = 0;
        proof {
            assert(self.docs().subrange(0, 0) =~= Seq::<Document>::empty());
        }
        while i < n
            invariant
                i <= n,
                n == self.docs().len(),
                counter == max_new_file_counter(self.docs().subrange(0, i as int)),
                counter <= max_new_file_counter(self.docs()),
            decreases n - i,
        {
            proof {
                lemma_max_counter_step(self.docs(), i as int);
            }
            let c = self.list[i].new_file_counter;
            if c > counter {
                counter = c;
            }
            i = i + 1;
        }
        proof {
            assert(self.docs().subrange(0, n as int) =~= self.docs());
        }
        let counter = counter + 1;
        doc.filename = format_untitled(counter);
        doc.new_file_counter = counter;
    }

    /// Requests a relayout of every open document's buffer.
    pub fn reflow_all(&mut self)
        ensures
            final(self).docs() == old(self).docs(),
    {
        let n = self.list.len();
        let mut i: usize = 0;
        while i < n
            invariant
                i <= n,
                n == self.docs().len(),
                self.docs() == old(self).docs(),
            decreases n - i,
        {
            let doc = vstd::std_specs::vec::vec_index_mut(&mut self.list, i);
            doc.buffer.reflow();
            proof {
                assert(self.list@ =~= old(self).docs());
            }
            i = i + 1;
        }
    }

    /// A buffer with the standard settings for a new document: a final
    /// newline as POSIX mandates, margin and line highlight on.
    pub fn create_buffer() -> (r: TextBufferState)
        ensures
            r == fresh_buffer(),
    {
        TextBufferState {
            dirty: false,
            ruler: 0,
            insert_final_newline: true,
            margin_enabled: true,
            line_highlight_enabled: true,
            cursor: Point { x: 0, y: 0 },
        }
    }

    /// Parses a trailing `:line` or `:line:char` suffix off a file name,
    /// returning how much of the name to keep and the position to jump to.
    /// Names that would become empty after stripping are left whole.
    pub fn parse_filename_goto(bytes: &[u8]) -> (r: (usize, Option<Point>))
        ensures
            r.0 as int == goto_spec(bytes@).0,
            r.1 == goto_spec(bytes@).1,
            r.0 <= bytes@.len(),
    {
        let n = bytes.len();
        let colend = match find_byte_rev(bytes, n, 0x3a) {
            Some(i) if i > 0 => i,
            _ => {
                return (n, None);
            },
        };
        let last = match parse_coord(vstd::slice::slice_subrange(bytes, colend + 1, n)) {
            Some(v) => v,
            None => {
                return (n, None);
            },
        };
        let last0: CoordType = if last >= 1 {
            last - 1
        } else {
            0
        };
        if let Some(colbeg) = find_byte_rev(bytes, colend, 0x3a) {
            if colbeg != 0 {
                if let Some(first) = parse_coord(
                    vstd::slice::slice_subrange(bytes, colbeg + 1, colend),
                ) {
                    let first0: CoordType = if first >= 1 {
                        first - 1
                    } else {
                        0
                    };
                    return (colbeg, Some(Point { x: last0, y: first0 }));
                }
            }
        }
        (colend, Some(Point { x: 0, y: last0 }))
    }
}

/// The buffer settings every new document starts with.
pub open spec fn fresh_buffer() -> TextBufferState {
    TextBufferState {
        dirty: false,
        ruler: 0,
        insert_final_newline: true,
        margin_enabled: true,
        line_highlight_enabled: true,
        cursor: Point { x: 0, y: 0 },
    }
}

/// The largest untitled-file counter among the documents.
pub open spec fn max_new_file_counter(docs: Seq<Document>) -> int
    decreases docs.len(),
{
    if docs.len() == 0 {
        0
    } else {
        let m = max_new_file_counter(docs.drop_last());
        if docs.last().new_file_counter >= m {
            docs.last().new_file_counter as int
        } else {
            m
        }
    }
}

proof fn lemma_max_counter_step(docs: Seq<Document>, i: int)
    requires
        0 <= i < docs.len(),
    ensures
        max_new_file_counter(docs.subrange(0, i + 1)) == (if docs[i].new_file_counter as int
            >= max_new_file_counter(docs.subrange(0, i)) {
            docs[i].new_file_counter as int
        } else {
            max_new_file_counter(docs.subrange(0, i))
        }),
        max_new_file_counter(docs.subrange(0, i + 1)) <= max_new_file_counter(docs),
    decreases docs.len() - i,
{
    let p = docs.subrange(0, i + 1);
    assert(p.drop_last() =~= docs.subrange(0, i));
    assert(p.last() == docs[i]);
    if i + 1 == docs.len() {
        assert(p =~= docs);
    } else {
        lemma_max_counter_grow(docs, i + 1);
    }
}

proof fn lemma_max_counter_grow(docs: Seq<Document>, j: int)
    requires
        0 <= j <= docs.len(),
    ensures
        max_new_file_counter(docs.subrange(0, j)) <= max_new_file_counter(docs),
    decreases docs.len() - j,
{
    if j == docs.len() {
        assert(docs.subrange(0, j) =~= docs);
    } else {
        lemma_max_counter_grow(docs, j + 1);
        let p = docs.subrange(0, j + 1);
        assert(p.drop_last() =~= docs.subrange(0, j));
    }
}

/// The characters of `Untitled-<n>.txt`.
pub open spec fn untitled_name(n: usize) -> Seq<char> {
    "Untitled-"@ + decimal_chars(n as int) + ".txt"@
}

/// The decimal digits of a non-negative number, most significant first.
pub open spec fn decimal_chars(n: int) -> Seq<char>
    decreases n,
    when n >= 0
{
    if n < 10 {
        seq![digit_char(n)]
    } else {
        decimal_chars(n / 10).push(digit_char(n % 10))
    }
}

/// The character for one decimal digit.
pub open spec fn digit_char(d: int) -> char
    recommends
        0 <= d <= 9,
{
    ((0x30 + d) as u8) as char
}

/// The position of the last `byte` strictly before `end`, if any.
pub open spec fn last_colon_like(s: Seq<u8>, end: int, byte: u8) -> Option<int>
    decreases end,
    when end <= s.len()
{
    if end <= 0 {
        None
    } else if s[end - 1] == byte {
        Some(end - 1)
    } else {
        last_colon_like(s, end - 1, byte)
    }
}

/// Whether the bytes are one or more ASCII digits.
pub open spec fn all_digits(s: Seq<u8>) -> bool {
    s.len() > 0 && forall|i: int| 0 <= i < s.len() ==> 0x30 <= #[trigger] s[i] <= 0x39
}

/// The numeric value of a digit string.
pub open spec fn digits_val(s: Seq<u8>) -> int
    decreases s.len(),
{
    if s.len() == 0 {
        0
    } else {
        digits_val(s.drop_last()) * 10 + (s.last() - 0x30)
    }
}

/// What parsing a coordinate yields: the value of an all-digit string that
/// fits the coordinate type, nothing otherwise.
pub open spec fn parse_coord_spec(s: Seq<u8>) -> Option<int> {
    if all_digits(s) && digits_val(s) <= CoordType::MAX {
        Some(digits_val(s))
    } else {
        None
    }
}

/// The keep-length and go-to position parsed from a file name with an
/// optional `:line` or `:line:char` suffix.
pub open spec fn goto_spec(s: Seq<u8>) -> (int, Option<Point>) {
    let n = s.len() as int;
    match last_colon_like(s, n, 0x3a) {
        None => (n, None::<Point>),
        Some(colend) => {
            if colend == 0 {
                (n, None)
            } else {
                match parse_coord_spec(s.subrange(colend + 1, n)) {
                    None => (n, None),
                    Some(last) => {
                        let last0 = if last >= 1 {
                            last - 1
                        } else {
                            0
                        };
                        let fallback = (
                            colend,
                            Some(Point { x: 0, y: last0 as CoordType }),
                        );
                        match last_colon_like(s, colend, 0x3a) {
                            Some(colbeg) => {
                                if colbeg != 0 {
                                    match parse_coord_spec(s.subrange(colbeg + 1, colend)) {
                                        Some(first) => {
                                            let first0 = if first >= 1 {
                                                first - 1
                                            } else {
                                                0
                                            };
                                            (
                                                colbeg,
                                                Some(
                                                    Point {
                                                        x: last0 as CoordType,
                                                        y: first0 as CoordType,
                                                    },
                                                ),
                                            )
                                        },
                                        None => fallback,
                                    }
                                } else {
                                    fallback
                                }
                            },
                            None => fallback,
                        }
                    },
                }
            }
        },
    }
}


/// A found position of [`last_colon_like`] indeed holds the byte.
proof fn lemma_last_colon_found(s: Seq<u8>, end: int, byte: u8)
    requires
        0 <= end <= s.len(),
        last_colon_like(s, end, byte) is Some,
    ensures
        ({
            let i = last_colon_like(s, end, byte)->Some_0;
            &&& 0 <= i < end
            &&& s[i] == byte
        }),
    decreases end,
{
    if end > 0 && s[end - 1] != byte {
        lemma_last_colon_found(s, end - 1, byte);
    }
}

/// Scans backwards from `end` for `byte`.
fn find_byte_rev(bytes: &[u8], end: usize, byte: u8) -> (r: Option<usize>)
    requires
        end <= bytes@.len(),
    ensures
        match r {
            Some(i) => Some(i as int) == last_colon_like(bytes@, end as int, byte) && i < end,
            None => last_colon_like(bytes@, end as int, byte) is None,
        },
{
    let mut i = end;
    while i > 0
        invariant
            i <= end <= bytes@.len(),
            last_colon_like(bytes@, end as int, byte) == last_colon_like(bytes@, i as int, byte),
        decreases i,
    {
        i = i - 1;
        if *vstd::slice::slice_index_get(bytes, i) == byte {
            return Some(i);
        }
    }
    None
}

/// Parses an all-digit coordinate, rejecting anything else and anything
/// too large for the coordinate type.
fn parse_coord(s: &[u8]) -> (r: Option<CoordType>)
    ensures
        match r {
            Some(v) => parse_coord_spec(s@) == Some(v as int) && v >= 0,
            None => parse_coord_spec(s@) is None,
        },
{
    let n = s.len();
    if n == 0 {
        return None;
    }
    let mut num: CoordType = 0;
    let mut i: usize = 0;
    while i < n
        invariant
            i <= n,
            n == s@.len(),
            forall|k: int| 0 <= k < i ==> 0x30 <= #[trigger] s@[k] <= 0x39,
            num == digits_val(s@.subrange(0, i as int)),
            0 <= num <= CoordType::MAX,
        decreases n - i,
    {
        let b = *vstd::slice::slice_index_get(s, i);
        if !(0x30 <= b && b <= 0x39) {
            return None;
        }
        let d: CoordType = (b - 0x30) as CoordType;
        proof {
            assert(s@.subrange(0, i + 1).drop_last() =~= s@.subrange(0, i as int));
            assert(s@.subrange(0, i + 1).last() == s@[i as int]);
        }
        if num > (CoordType::MAX - d) / 10 {
            proof {
                lemma_digits_val_nonneg(s@.subrange(0, i + 1));
                assert(num * 10 + d > CoordType::MAX) by (nonlinear_arith)
                    requires
                        num > (CoordType::MAX - d) / 10,
                        num >= 0,
                        0 <= d <= 9,
                ;
                if all_digits(s@) {
                    lemma_digits_val_prefix(s@, i + 1);
                }
            }
            return None;
        }
        num = num * 10 + d;
        i = i + 1;
    }
    proof {
        assert(s@.subrange(0, n as int) =~= s@);
        if digits_val(s@) > CoordType::MAX {
        }
    }
    Some(num)
}

/// Digit strings denote non-negative values.
proof fn lemma_digits_val_nonneg(s: Seq<u8>)
    requires
        forall|i: int| 0 <= i < s.len() ==> 0x30 <= #[trigger] s[i] <= 0x39,
    ensures
        digits_val(s) >= 0,
    decreases s.len(),
{
    if s.len() > 0 {
        lemma_digits_val_nonneg(s.drop_last());
        assert(digits_val(s.drop_last()) * 10 >= 0) by (nonlinear_arith)
            requires
                digits_val(s.drop_last()) >= 0,
        ;
    }
}

/// A digit string's value only grows as digits are appended: the value of
/// a prefix never exceeds the value of the whole.
proof fn lemma_digits_val_prefix(s: Seq<u8>, i: int)
    requires
        forall|k: int| 0 <= k < s.len() ==> 0x30 <= #[trigger] s[k] <= 0x39,
        0 <= i <= s.len(),
    ensures
        digits_val(s.subrange(0, i)) <= digits_val(s),
    decreases s.len() - i,
{
    if i == s.len() {
        assert(s.subrange(0, i) =~= s);
    } else {
        lemma_digits_val_prefix(s, i + 1);
        let p = s.subrange(0, i + 1);
        assert(p.drop_last() =~= s.subrange(0, i));
        lemma_digits_val_nonneg(s.subrange(0, i));
        assert(digits_val(s.subrange(0, i)) <= digits_val(s.subrange(0, i)) * 10 + (p.last()
            - 0x30)) by (nonlinear_arith)
            requires
                digits_val(s.subrange(0, i)) >= 0,
                0x30 <= p.last() <= 0x39,
        ;
    }
}

/// Owned string from validated bytes.
fn bytes_to_string(v: &[u8]) -> (r: String)
    requires
        valid_utf8(v@),
    ensures
        encode_utf8(r@) == v@,
{
    proof {
        broadcast use vstd::utf8::decode_utf8_encode_utf8;

    }
    crate::unicode::bytes_as_str(v).to_owned()
}

/// Relies on the standard formatter: `Display` for `usize` writes the
/// decimal digits, so the rendered name is `Untitled-`, the digits of `n`,
/// then `.txt`.
#[verifier::external_body]
fn format_untitled(n: usize) -> (r: String)
    ensures
        r@ == untitled_name(n),
{
    format!("Untitled-{n}.txt")
}

} // verus!

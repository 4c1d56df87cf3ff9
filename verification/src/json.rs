//! A simple JSONC parser with comment and trailing-comma support, built
//! for small settings files.
//!
//! Numeric values are kept as their literal text, validated against the
//! numeric grammar [`is_number_lit`]; converting them to machine floats is
//! the consumer's concern, outside the verified core.

use vstd::prelude::*;

use crate::unicode::{char_from_u32, encode_char, str_eq, validate_utf8};

verus! {

use vstd::string::StringSliceAdditionalSpecFns;

/// Maximum nesting depth, preventing stack overflow on hostile input.
pub const MAX_DEPTH: usize = 64;

#[derive(Debug, Clone, Copy, PartialEq, Eq, Structural)]
pub enum ParseErrorKind {
    /// Invalid JSON syntax.
    Syntax,
    /// Maximum nesting depth exceeded.
    MaxDepth,
}

/// A parse failure with its position, 1-based.
#[derive(Debug, Clone, Copy, PartialEq, Eq, Structural)]
pub struct ParseError {
    pub kind: ParseErrorKind,
    pub line: usize,
    pub column: usize,
}

/// A parsed JSON value. Numbers carry their literal text.
#[derive(Debug)]
pub enum Value {
    Null,
    Bool(bool),
    Number(String),
    String(String),
    Array(Vec<Value>),
    Object(Vec<(String, Value)>),
}

impl Value {
    pub fn is_null(&self) -> (r: bool)
        ensures
            r == (self is Null),
    {
        matches!(self, Value::Null)
    }

    pub fn as_bool(&self) -> (r: Option<bool>)
        ensures
            r == (if self is Bool {
                Some(self->Bool_0)
            } else {
                None
            }),
    {
        match self {
            Value::Bool(b) => Some(*b),
            _ => None,
        }
    }

    /// The literal text of a numeric value.
    pub fn as_number_text(&self) -> (r: Option<&String>)
        ensures
            self is Number ==> (r matches Some(s) && *s == self->Number_0),
            !(self is Number) ==> r is None,
    {
        match self {
            Value::Number(n) => Some(n),
            _ => None,
        }
    }

    pub fn as_str(&self) -> (r: Option<&String>)
        ensures
            self is String ==> (r matches Some(s) && *s == self->String_0),
            !(self is String) ==> r is None,
    {
        match self {
            Value::String(s) => Some(s),
            _ => None,
        }
    }

    pub fn as_array(&self) -> (r: Option<&Vec<Value>>)
        ensures
            self is Array ==> (r matches Some(a) && *a == self->Array_0),
            !(self is Array) ==> r is None,
    {
        match self {
            Value::Array(a) => Some(a),
            _ => None,
        }
    }

    pub fn as_object(&self) -> (r: Option<Object<'_>>)
        ensures
            self is Object ==> (r matches Some(o) && o.entries@ == self->Object_0@),
            !(self is Object) ==> r is None,
    {
        match self {
            Value::Object(entries) => Some(Object { entries: entries.as_slice() }),
            _ => None,
        }
    }
}

/// The entry with the given key, first match wins.
pub open spec fn find_key(entries: Seq<(String, Value)>, key: Seq<char>) -> Option<Value>
    decreases entries.len(),
{
    if entries.len() == 0 {
        None
    } else if entries[0].0@ == key {
        Some(entries[0].1)
    } else {
        find_key(entries.drop_first(), key)
    }
}

/// A borrowed view of an object's entries.
#[derive(Clone, Copy)]
pub struct Object<'a> {
    pub entries: &'a [(String, Value)],
}

impl<'a> Object<'a> {
    /// Looks the key up, first match wins.
    pub fn get(&self, key: &str) -> (r: Option<&'a Value>)
        ensures
            match find_key(self.entries@, key@) {
                Some(v) => r matches Some(rv) && *rv == v,
                None => r is None,
            },
    {
        let n = self.entries.len();
        proof {
            assert(self.entries@.skip(0) =~= self.entries@);
        }
        let mut i: usize = 0;
        while i < n
            invariant
                i <= n,
                n == self.entries@.len(),
                find_key(self.entries@, key@) == find_key(
                    self.entries@.skip(i as int),
                    key@,
                ),
            decreases n - i,
        {
            let e = vstd::slice::slice_index_get(self.entries, i);
            proof {
                assert(self.entries@.skip(i as int)[0] == self.entries@[i as int]);
                assert(self.entries@.skip(i as int).drop_first() =~= self.entries@.skip(i + 1));
            }
            if str_eq(e.0.as_str(), key) {
                return Some(&e.1);
            }
            i = i + 1;
        }
        None
    }

    pub fn get_bool(&self, key: &str) -> (r: Option<bool>)
        ensures
            match find_key(self.entries@, key@) {
                Some(v) => r == (if v is Bool {
                    Some(v->Bool_0)
                } else {
                    None
                }),
                None => r is None,
            },
    {
        match self.get(key) {
            Some(v) => v.as_bool(),
            None => None,
        }
    }

    /// The literal text of a numeric entry.
    pub fn get_number_text(&self, key: &str) -> (r: Option<&'a String>)
        ensures
            match find_key(self.entries@, key@) {
                Some(v) => (v is Number <==> (r matches Some(s) && *s == v->Number_0)),
                None => r is None,
            },
    {
        match self.get(key) {
            Some(v) => match v {
                Value::Number(n) => Some(n),
                _ => None,
            },
            None => None,
        }
    }

    pub fn get_str(&self, key: &str) -> (r: Option<&'a String>)
        ensures
            match find_key(self.entries@, key@) {
                Some(v) => (v is String <==> (r matches Some(s) && *s == v->String_0)),
                None => r is None,
            },
    {
        match self.get(key) {
            Some(v) => match v {
                Value::String(s) => Some(s),
                _ => None,
            },
            None => None,
        }
    }

    pub fn get_array(&self, key: &str) -> (r: Option<&'a Vec<Value>>)
        ensures
            match find_key(self.entries@, key@) {
                Some(v) => (v is Array <==> (r matches Some(a) && *a == v->Array_0)),
                None => r is None,
            },
    {
        match self.get(key) {
            Some(v) => match v {
                Value::Array(a) => Some(a),
                _ => None,
            },
            None => None,
        }
    }

    pub fn get_object(&self, key: &str) -> (r: Option<Object<'a>>)
        ensures
            match find_key(self.entries@, key@) {
                Some(v) => (v is Object <==> (r matches Some(o) && o.entries@ == v->Object_0@)),
                None => r is None,
            },
    {
        match self.get(key) {
            Some(v) => match v {
                Value::Object(entries) => Some(Object { entries: entries.as_slice() }),
                _ => None,
            },
            None => None,
        }
    }

    /// The entries, in document order.
    pub fn entries(&self) -> (r: &'a [(String, Value)])
        ensures
            r@ == self.entries@,
    {
        self.entries
    }

    pub fn len(&self) -> (r: usize)
        ensures
            r == self.entries@.len(),
    {
        self.entries.len()
    }

    pub fn is_empty(&self) -> (r: bool)
        ensures
            r == (self.entries@.len() == 0),
    {
        self.entries.len() == 0
    }
}

/// Parses one JSONC document: a single value, optionally surrounded by
/// whitespace and comments, with nothing after it.
pub fn parse(input: &str) -> Result<Value, ParseError> {
    let bytes = input.as_bytes();
    if bytes.len() == usize::MAX {
        return Err(ParseError { kind: ParseErrorKind::Syntax, line: 1, column: 1 });
    }
    let mut parser = Parser { bytes, pos: 0 };
    parser.skip_bom();
    let value = parser.parse_value(0)?;
    parser.skip_whitespace_and_comments()?;
    if parser.pos == parser.bytes.len() {
        Ok(value)
    } else {
        Err(parser.fail(parser.pos, ParseErrorKind::Syntax))
    }
}

struct Parser<'i> {
    bytes: &'i [u8],
    pos: usize,
}

impl<'i> Parser<'i> {
    spec fn wf(&self) -> bool {
        &&& self.pos <= self.bytes@.len()
        &&& self.bytes@.len() < usize::MAX
    }

    fn parse_value(&mut self, depth: usize) -> (r: Result<Value, ParseError>)
        requires
            old(self).wf(),
            depth <= MAX_DEPTH,
        ensures
            final(self).wf(),
            final(self).bytes == old(self).bytes,
            final(self).pos >= old(self).pos,
            r is Ok ==> final(self).pos > old(self).pos,
        decreases MAX_DEPTH - depth, 2int,
    {
        if depth >= MAX_DEPTH {
            return Err(self.fail(self.pos, ParseErrorKind::MaxDepth));
        }
        self.skip_whitespace_and_comments()?;

        if self.pos >= self.bytes.len() {
            return Err(self.fail(self.pos, ParseErrorKind::Syntax));
        }
        let ch = *vstd::slice::slice_index_get(self.bytes, self.pos);
        if ch == 0x6e {
            self.parse_null()
        } else if ch == 0x74 {
            self.parse_true()
        } else if ch == 0x66 {
            self.parse_false()
        } else if ch == 0x2d || (0x30 <= ch && ch <= 0x39) {
            self.parse_number()
        } else if ch == 0x22 {
            self.parse_string()
        } else if ch == 0x5b {
            self.parse_array(depth)
        } else if ch == 0x7b {
            self.parse_object(depth)
        } else {
            Err(self.fail(self.pos, ParseErrorKind::Syntax))
        }
    }

    fn parse_null(&mut self) -> (r: Result<Value, ParseError>)
        requires
            old(self).wf(),
        ensures
            final(self).wf(),
            final(self).bytes == old(self).bytes,
            final(self).pos >= old(self).pos,
            r is Ok ==> final(self).pos > old(self).pos,
            r matches Ok(v) ==> v is Null,
    {
        proof {
            reveal_strlit("null");
        }
        self.expect_ascii_str("null")?;
        Ok(Value::Null)
    }

    fn parse_true(&mut self) -> (r: Result<Value, ParseError>)
        requires
            old(self).wf(),
        ensures
            final(self).wf(),
            final(self).bytes == old(self).bytes,
            final(self).pos >= old(self).pos,
            r is Ok ==> final(self).pos > old(self).pos,
            r matches Ok(v) ==> v == Value::Bool(true),
    {
        proof {
            reveal_strlit("true");
        }
        self.expect_ascii_str("true")?;
        Ok(Value::Bool(true))
    }

    fn parse_false(&mut self) -> (r: Result<Value, ParseError>)
        requires
            old(self).wf(),
        ensures
            final(self).wf(),
            final(self).bytes == old(self).bytes,
            final(self).pos >= old(self).pos,
            r is Ok ==> final(self).pos > old(self).pos,
            r matches Ok(v) ==> v == Value::Bool(false),
    {
        proof {
            reveal_strlit("false");
        }
        self.expect_ascii_str("false")?;
        Ok(Value::Bool(false))
    }

    /// Consumes the maximal run of numeric characters and accepts it
    /// exactly when it matches the numeric grammar.
    fn parse_number(&mut self) -> (r: Result<Value, ParseError>)
        requires
            old(self).wf(),
        ensures
            final(self).wf(),
            final(self).bytes == old(self).bytes,
            final(self).pos >= old(self).pos,
            r is Ok ==> final(self).pos > old(self).pos,
            r matches Ok(v) ==> v is Number && is_number_lit(
                old(self).bytes@.subrange(old(self).pos as int, final(self).pos as int),
            ),
    {
        let start = self.pos;
        let n = self.bytes.len();
        while self.pos < n
            invariant
                self.wf(),
                self.bytes == old(self).bytes,
                n == self.bytes@.len(),
                start <= self.pos,
                start == old(self).pos,
            decreases n - self.pos,
        {
            let b = *vstd::slice::slice_index_get(self.bytes, self.pos);
            if (0x30 <= b && b <= 0x39) || b == 0x2e || b == 0x2d || b == 0x2b || b == 0x65 || b
                == 0x45 {
                self.pos = self.pos + 1;
            } else {
                break ;
            }
        }
        let run = vstd::slice::slice_subrange(self.bytes, start, self.pos);
        if is_number_lit_exec(run) {
            if validate_utf8(run) {
                proof {
                    if self.pos == start {
                        assert(run@.len() == 0);
                        assert(!is_number_lit(run@));
                    }
                }
                let text = crate::unicode::bytes_as_str(run).to_owned();
                return Ok(Value::Number(text));
            }
        }
        Err(self.fail(self.pos, ParseErrorKind::Syntax))
    }

    /// Parses a quoted string with escapes into an owned value.
    fn parse_string(&mut self) -> (r: Result<Value, ParseError>)
        requires
            old(self).wf(),
        ensures
            final(self).wf(),
            final(self).bytes == old(self).bytes,
            final(self).pos >= old(self).pos,
            r is Ok ==> final(self).pos > old(self).pos,
            r matches Ok(v) ==> v is String,
    {
        self.expect_byte(0x22)?;

        let mut acc: Vec<u8> = Vec::new();
        let n = self.bytes.len();
        loop
            invariant
                self.wf(),
                self.bytes == old(self).bytes,
                n == self.bytes@.len(),
                self.pos > old(self).pos,
            decreases n - self.pos,
        {
            if self.pos >= n {
                // Unterminated string.
                return Err(self.fail(self.pos, ParseErrorKind::Syntax));
            }
            let b = *vstd::slice::slice_index_get(self.bytes, self.pos);
            self.pos = self.pos + 1;
            if b == 0x22 {
                break ;
            } else if b == 0x5c {
                self.parse_escape(&mut acc)?;
            } else if b <= 0x1f {
                // Control characters must be escaped.
                return Err(self.fail(self.pos - 1, ParseErrorKind::Syntax));
            } else {
                acc.push(b);
                let ghost run_floor = self.pos;
                while self.pos < n
                    invariant
                        self.wf(),
                        self.bytes == old(self).bytes,
                        n == self.bytes@.len(),
                        self.pos >= run_floor,
                        run_floor > old(self).pos,
                    decreases n - self.pos,
                {
                    let c = *vstd::slice::slice_index_get(self.bytes, self.pos);
                    if c == 0x22 || c == 0x5c || c <= 0x1f {
                        break ;
                    }
                    acc.push(c);
                    self.pos = self.pos + 1;
                }
            }
        }

        if validate_utf8(acc.as_slice()) {
            let text = crate::unicode::bytes_as_str(acc.as_slice()).to_owned();
            Ok(Value::String(text))
        } else {
            Err(self.fail(self.pos, ParseErrorKind::Syntax))
        }
    }

    /// Decodes one escape sequence after a backslash, appending its UTF-8
    /// bytes.
    fn parse_escape(&mut self, acc: &mut Vec<u8>) -> (r: Result<(), ParseError>)
        requires
            old(self).wf(),
        ensures
            final(self).wf(),
            final(self).bytes == old(self).bytes,
            final(self).pos >= old(self).pos,
    {
        if self.pos >= self.bytes.len() {
            // Unterminated escape sequence.
            return Err(self.fail(self.pos, ParseErrorKind::Syntax));
        }
        let b = *vstd::slice::slice_index_get(self.bytes, self.pos);
        self.pos = self.pos + 1;

        let out: u8 = if b == 0x22 {
            0x22
        } else if b == 0x5c {
            0x5c
        } else if b == 0x2f {
            0x2f
        } else if b == 0x62 {
            0x08
        } else if b == 0x66 {
            0x0c
        } else if b == 0x6e {
            0x0a
        } else if b == 0x72 {
            0x0d
        } else if b == 0x74 {
            0x09
        } else if b == 0x75 {
            return self.parse_unicode_escape(acc);
        } else {
            // Invalid escape sequence.
            return Err(self.fail(if self.pos >= 2 {
                self.pos - 2
            } else {
                0
            }, ParseErrorKind::Syntax));
        };
        acc.push(out);
        Ok(())
    }

    /// Decodes `\uXXXX`, combining surrogate pairs, and appends the
    /// character's UTF-8 encoding.
    fn parse_unicode_escape(&mut self, acc: &mut Vec<u8>) -> (r: Result<(), ParseError>)
        requires
            old(self).wf(),
        ensures
            final(self).wf(),
            final(self).bytes == old(self).bytes,
            final(self).pos >= old(self).pos,
    {
        let start = if self.pos >= 2 {
            self.pos - 2
        } else {
            0
        };
        let mut code = self.parse_hex4(start)?;

        if 0xd800 <= code && code <= 0xdbff {
            let mut paired = false;
            if self.starts_with2(0x5c, 0x75) {
                self.pos = self.pos + 2;
                if let Ok(low) = self.parse_hex4(start) {
                    if 0xdc00 <= low && low <= 0xdfff {
                        code = 0x10000 + ((code - 0xd800) * 0x400) + (low - 0xdc00);
                        paired = true;
                    }
                }
            }
            if !paired {
                code = 0xffffffff;
            }
        }

        if code < 0xd800 || (0xe000 <= code && code <= 0x10ffff) {
            let ch = char_from_u32(code);
            let mut enc = encode_char(ch);
            acc.append(&mut enc);
            Ok(())
        } else {
            Err(self.fail(start, ParseErrorKind::Syntax))
        }
    }

    /// Reads exactly four hex digits as a code unit.
    fn parse_hex4(&mut self, err_pos: usize) -> (r: Result<u32, ParseError>)
        requires
            old(self).wf(),
        ensures
            final(self).wf(),
            final(self).bytes == old(self).bytes,
            final(self).pos >= old(self).pos,
            r matches Ok(v) ==> v <= 0xffff,
    {
        let n = self.bytes.len();
        if n - self.pos < 4 {
            return Err(self.fail(err_pos, ParseErrorKind::Syntax));
        }
        let mut acc: u32 = 0;
        let mut k: usize = 0;
        while k < 4
            invariant
                self.wf(),
                self.bytes == old(self).bytes,
                self.pos >= old(self).pos,
                n == self.bytes@.len(),
                n - self.pos >= 4 - k,
                k <= 4,
                acc < (if k == 0 {
                    1u32
                } else if k == 1 {
                    16u32
                } else if k == 2 {
                    256u32
                } else if k == 3 {
                    4096u32
                } else {
                    65536u32
                }),
            decreases 4 - k,
        {
            let b = *vstd::slice::slice_index_get(self.bytes, self.pos);
            let d: u32 = if 0x30 <= b && b <= 0x39 {
                (b - 0x30) as u32
            } else if 0x61 <= b && b <= 0x66 {
                (b - 0x61) as u32 + 10
            } else if 0x41 <= b && b <= 0x46 {
                (b - 0x41) as u32 + 10
            } else {
                return Err(self.fail(err_pos, ParseErrorKind::Syntax));
            };
            acc = acc * 16 + d;
            self.pos = self.pos + 1;
            k = k + 1;
        }
        Ok(acc)
    }

    fn parse_array(&mut self, depth: usize) -> (r: Result<Value, ParseError>)
        requires
            old(self).wf(),
            depth < MAX_DEPTH,
        ensures
            final(self).wf(),
            final(self).bytes == old(self).bytes,
            final(self).pos >= old(self).pos,
            r is Ok ==> final(self).pos > old(self).pos,
            r matches Ok(v) ==> v is Array,
        decreases MAX_DEPTH - depth, 1int,
    {
        let mut values: Vec<Value> = Vec::new();
        let mut expects_comma = false;

        self.expect_byte(0x5b)?;

        let n = self.bytes.len();
        loop
            invariant
                self.wf(),
                self.bytes == old(self).bytes,
                n == self.bytes@.len(),
                self.pos > old(self).pos,
                depth < MAX_DEPTH,
            decreases n - self.pos,
        {
            self.skip_whitespace_and_comments()?;

            if self.pos >= n {
                // Unexpected end of input.
                return Err(self.fail(self.pos, ParseErrorKind::Syntax));
            }
            let b = *vstd::slice::slice_index_get(self.bytes, self.pos);
            if b == 0x5d {
                break ;
            } else if b == 0x2c {
                if !expects_comma {
                    // Unexpected comma.
                    return Err(self.fail(self.pos, ParseErrorKind::Syntax));
                }
                self.pos = self.pos + 1;
                self.skip_whitespace_and_comments()?;
                expects_comma = false;
            } else {
                if expects_comma {
                    // Missing comma.
                    return Err(self.fail(self.pos, ParseErrorKind::Syntax));
                }
                let v = self.parse_value(depth + 1)?;
                values.push(v);
                expects_comma = true;
            }
        }

        self.expect_byte(0x5d)?;
        Ok(Value::Array(values))
    }

    fn parse_object(&mut self, depth: usize) -> (r: Result<Value, ParseError>)
        requires
            old(self).wf(),
            depth < MAX_DEPTH,
        ensures
            final(self).wf(),
            final(self).bytes == old(self).bytes,
            final(self).pos >= old(self).pos,
            r is Ok ==> final(self).pos > old(self).pos,
            r matches Ok(v) ==> v is Object,
        decreases MAX_DEPTH - depth, 1int,
    {
        let mut entries: Vec<(String, Value)> = Vec::new();
        let mut expects_comma = false;

        self.expect_byte(0x7b)?;

        let n = self.bytes.len();
        loop
            invariant
                self.wf(),
                self.bytes == old(self).bytes,
                n == self.bytes@.len(),
                self.pos > old(self).pos,
                depth < MAX_DEPTH,
            decreases n - self.pos,
        {
            self.skip_whitespace_and_comments()?;

            if self.pos >= n {
                // Unexpected end of input.
                return Err(self.fail(self.pos, ParseErrorKind::Syntax));
            }
            let b = *vstd::slice::slice_index_get(self.bytes, self.pos);
            if b == 0x7d {
                break ;
            } else if b == 0x2c {
                if !expects_comma {
                    // Unexpected comma.
                    return Err(self.fail(self.pos, ParseErrorKind::Syntax));
                }
                self.pos = self.pos + 1;
                self.skip_whitespace_and_comments()?;
                expects_comma = false;
            } else {
                if expects_comma {
                    // Missing comma.
                    return Err(self.fail(self.pos, ParseErrorKind::Syntax));
                }
                if b != 0x22 {
                    // Keys must be strings.
                    return Err(self.fail(self.pos, ParseErrorKind::Syntax));
                }
                let key = match self.parse_string()? {
                    Value::String(s) => s,
                    _ => {
                        return Err(self.fail(self.pos, ParseErrorKind::Syntax));
                    },
                };
                self.skip_whitespace_and_comments()?;
                self.expect_byte(0x3a)?;
                let value = self.parse_value(depth + 1)?;
                entries.push((key, value));
                expects_comma = true;
            }
        }

        self.expect_byte(0x7d)?;
        Ok(Value::Object(entries))
    }

    /// Skips a leading byte-order mark.
    fn skip_bom(&mut self)
        requires
            old(self).wf(),
        ensures
            final(self).wf(),
            final(self).bytes == old(self).bytes,
            final(self).pos >= old(self).pos,
    {
        let n = self.bytes.len();
        if n - self.pos >= 3 {
            let a = *vstd::slice::slice_index_get(self.bytes, self.pos);
            let b = *vstd::slice::slice_index_get(self.bytes, self.pos + 1);
            let c = *vstd::slice::slice_index_get(self.bytes, self.pos + 2);
            if a == 0xef && b == 0xbb && c == 0xbf {
                self.pos = self.pos + 3;
            }
        }
    }

    /// Skips whitespace, line comments and block comments; an unterminated
    /// block comment is the one failure here.
    fn skip_whitespace_and_comments(&mut self) -> (r: Result<(), ParseError>)
        requires
            old(self).wf(),
        ensures
            final(self).wf(),
            final(self).bytes == old(self).bytes,
            final(self).pos >= old(self).pos,
    {
        let n = self.bytes.len();
        loop
            invariant
                self.wf(),
                self.bytes == old(self).bytes,
                n == self.bytes@.len(),
                self.pos >= old(self).pos,
            decreases n - self.pos,
        {
            let ghost round_floor = self.pos;
            while self.pos < n
                invariant
                    self.wf(),
                    self.bytes == old(self).bytes,
                    n == self.bytes@.len(),
                    self.pos >= round_floor >= old(self).pos,
                decreases n - self.pos,
            {
                let b = *vstd::slice::slice_index_get(self.bytes, self.pos);
                if b == 0x20 || b == 0x09 || b == 0x0a || b == 0x0d {
                    self.pos = self.pos + 1;
                } else {
                    break ;
                }
            }

            if self.starts_with2(0x2f, 0x2f) {
                self.pos = self.pos + 2;
                while self.pos < n
                    invariant
                        self.wf(),
                        self.bytes == old(self).bytes,
                        n == self.bytes@.len(),
                        self.pos >= round_floor + 2,
                        round_floor >= old(self).pos,
                    decreases n - self.pos,
                {
                    if *vstd::slice::slice_index_get(self.bytes, self.pos) == 0x0a {
                        break ;
                    }
                    self.pos = self.pos + 1;
                }
            } else if self.starts_with2(0x2f, 0x2a) {
                let start = self.pos;
                self.pos = self.pos + 2;
                let mut closed = false;
                while self.pos < n
                    invariant
                        self.wf(),
                        self.bytes == old(self).bytes,
                        n == self.bytes@.len(),
                        self.pos >= round_floor + 2,
                        round_floor >= old(self).pos,
                    decreases n - self.pos,
                {
                    if self.starts_with2(0x2a, 0x2f) {
                        self.pos = self.pos + 2;
                        closed = true;
                        break ;
                    }
                    self.pos = self.pos + 1;
                }
                if !closed {
                    return Err(self.fail(start, ParseErrorKind::Syntax));
                }
            } else {
                return Ok(());
            }
        }
    }

    /// Whether the next two bytes are exactly `a` then `b`.
    fn starts_with2(&self, a: u8, b: u8) -> (r: bool)
        requires
            self.wf(),
        ensures
            r == (self.pos + 2 <= self.bytes@.len() && self.bytes@[self.pos as int] == a
                && self.bytes@[self.pos + 1] == b),
    {
        let n = self.bytes.len();
        n - self.pos >= 2 && *vstd::slice::slice_index_get(self.bytes, self.pos) == a
            && *vstd::slice::slice_index_get(self.bytes, self.pos + 1) == b
    }

    /// Consumes the expected byte or fails at it.
    fn expect_byte(&mut self, expected: u8) -> (r: Result<(), ParseError>)
        requires
            old(self).wf(),
        ensures
            final(self).wf(),
            final(self).bytes == old(self).bytes,
            r is Ok <==> (old(self).pos < old(self).bytes@.len() && old(self).bytes@[old(
                self,
            ).pos as int] == expected),
            r is Ok ==> final(self).pos == old(self).pos + 1,
            r is Err ==> final(self).pos == old(self).pos,
    {
        if self.pos < self.bytes.len() && *vstd::slice::slice_index_get(self.bytes, self.pos)
            == expected {
            self.pos = self.pos + 1;
            Ok(())
        } else {
            Err(self.fail(self.pos, ParseErrorKind::Syntax))
        }
    }

    /// Consumes the expected ASCII keyword or fails at the current
    /// position.
    fn expect_ascii_str(&mut self, expected: &str) -> (r: Result<(), ParseError>)
        requires
            old(self).wf(),
            expected@.len() >= 1,
        ensures
            final(self).wf(),
            final(self).bytes == old(self).bytes,
            r is Ok <==> is_str_at(old(self).bytes@, old(self).pos as int, expected.spec_bytes()),
            r is Ok ==> final(self).pos == old(self).pos + expected.spec_bytes().len()
                && final(self).pos > old(self).pos,
            r is Err ==> final(self).pos == old(self).pos,
    {
        proof {
            assert(expected.spec_bytes().len() >= 1) by {
                assert(vstd::utf8::encode_utf8(expected@) == vstd::utf8::encode_scalar(
                    expected@[0] as u32,
                ) + vstd::utf8::encode_utf8(expected@.drop_first()));
            }
        }
        if self.is_ascii_str(expected) {
            self.pos = self.pos + expected.len();
            Ok(())
        } else {
            Err(self.fail(self.pos, ParseErrorKind::Syntax))
        }
    }

    /// Whether the input continues with the given ASCII text here.
    fn is_ascii_str(&self, expected: &str) -> (r: bool)
        requires
            self.wf(),
        ensures
            r == is_str_at(self.bytes@, self.pos as int, expected.spec_bytes()),
    {
        let e = expected.as_bytes();
        let m = e.len();
        let n = self.bytes.len();
        if n - self.pos < m {
            return false;
        }
        let mut k: usize = 0;
        while k < m
            invariant
                k <= m,
                m == e@.len(),
                e@ == expected.spec_bytes(),
                n == self.bytes@.len(),
                self.pos + m <= n,
                forall|j: int| 0 <= j < k ==> self.bytes@[self.pos + j] == e@[j],
            decreases m - k,
        {
            if *vstd::slice::slice_index_get(self.bytes, self.pos + k)
                != *vstd::slice::slice_index_get(e, k) {
                proof {
                    assert(!is_str_at(self.bytes@, self.pos as int, expected.spec_bytes()));
                }
                return false;
            }
            k = k + 1;
        }
        true
    }

    /// The failure at a byte position, with its 1-based line and column.
    fn fail(&self, pos: usize, kind: ParseErrorKind) -> (r: ParseError)
        requires
            self.wf(),
        ensures
            r.kind == kind,
            r.line as int == count_newlines(
                self.bytes@,
                min_pos(pos as int, self.bytes@.len() as int),
            ) + 1,
            r.column as int == min_pos(pos as int, self.bytes@.len() as int) - line_start(
                self.bytes@,
                min_pos(pos as int, self.bytes@.len() as int),
            ) + 1,
    {
        let n = self.bytes.len();
        let p = if pos <= n {
            pos
        } else {
            n
        };
        let mut line_breaks: usize = 0;
        let mut start_of_line: usize = 0;
        let mut i: usize = 0;
        while i < p
            invariant
                i <= p <= n,
                n == self.bytes@.len(),
                n < usize::MAX,
                line_breaks as int == count_newlines(self.bytes@, i as int),
                start_of_line as int == line_start(self.bytes@, i as int),
                line_breaks <= i,
                start_of_line <= i,
            decreases p - i,
        {
            if *vstd::slice::slice_index_get(self.bytes, i) == 0x0a {
                line_breaks = line_breaks + 1;
                start_of_line = i + 1;
            }
            i = i + 1;
        }
        ParseError { kind, line: line_breaks + 1, column: p - start_of_line + 1 }
    }
}

/// `needle` occurs in `hay` starting at `at`.
pub open spec fn is_str_at(hay: Seq<u8>, at: int, needle: Seq<u8>) -> bool {
    &&& 0 <= at
    &&& at + needle.len() <= hay.len()
    &&& forall|j: int| 0 <= j < needle.len() ==> hay[at + j] == needle[j]
}

/// Newlines strictly before `end`.
pub open spec fn count_newlines(s: Seq<u8>, end: int) -> int
    decreases end,
    when end <= s.len()
{
    if end <= 0 {
        0
    } else {
        count_newlines(s, end - 1) + (if s[end - 1] == 0x0a {
            1int
        } else {
            0int
        })
    }
}

/// The position right after the last newline strictly before `end`.
pub open spec fn line_start(s: Seq<u8>, end: int) -> int
    decreases end,
    when end <= s.len()
{
    if end <= 0 {
        0
    } else if s[end - 1] == 0x0a {
        end
    } else {
        line_start(s, end - 1)
    }
}

pub open spec fn min_pos(a: int, b: int) -> int {
    if a <= b {
        a
    } else {
        b
    }
}

/// First position at or past `i` that is not an ASCII digit.
pub open spec fn digits_end(s: Seq<u8>, i: int) -> int
    decreases s.len() - i,
    when 0 <= i <= s.len()
{
    if i < s.len() && 0x30 <= s[i] <= 0x39 {
        digits_end(s, i + 1)
    } else {
        i
    }
}

/// The numeric grammar accepted for a JSON number literal: an optional
/// sign, then digits with an optional fraction (one side of the point may
/// be empty, but not both), then an optional signed exponent.
pub open spec fn is_number_lit(s: Seq<u8>) -> bool {
    let n = s.len() as int;
    let i0: int = if n > 0 && (s[0] == 0x2b || s[0] == 0x2d) {
        1
    } else {
        0
    };
    let d1 = digits_end(s, i0);
    if d1 > i0 {
        let after = if d1 < n && s[d1] == 0x2e {
            digits_end(s, d1 + 1)
        } else {
            d1
        };
        exponent_ok(s, after)
    } else if i0 < n && s[i0] == 0x2e {
        let d2 = digits_end(s, i0 + 1);
        d2 > i0 + 1 && exponent_ok(s, d2)
    } else {
        false
    }
}

/// The exponent part of the numeric grammar, starting at `i`: either
/// nothing, or `e`/`E`, an optional sign, and digits to the very end.
pub open spec fn exponent_ok(s: Seq<u8>, i: int) -> bool
    recommends
        0 <= i <= s.len(),
{
    let n = s.len() as int;
    if i == n {
        true
    } else if s[i] == 0x65 || s[i] == 0x45 {
        let j = if i + 1 < n && (s[i + 1] == 0x2b || s[i + 1] == 0x2d) {
            i + 2
        } else {
            i + 1
        };
        digits_end(s, j) == n && digits_end(s, j) > j
    } else {
        false
    }
}

/// Whether the byte at `j` is an ASCII digit.
fn digit_at(s: &[u8], j: usize) -> (r: bool)
    requires
        j < s@.len(),
    ensures
        r == (0x30 <= s@[j as int] <= 0x39),
{
    let b = *vstd::slice::slice_index_get(s, j);
    0x30 <= b && b <= 0x39
}

/// Executable counterpart of [`digits_end`].
fn digits_end_exec(s: &[u8], i: usize) -> (r: usize)
    requires
        i <= s@.len(),
    ensures
        r as int == digits_end(s@, i as int),
        i <= r <= s@.len(),
{
    let n = s.len();
    let mut j = i;
    while j < n && digit_at(s, j)
        invariant
            i <= j <= n,
            n == s@.len(),
            digits_end(s@, i as int) == digits_end(s@, j as int),
        decreases n - j,
    {
        j = j + 1;
    }
    j
}

/// Executable counterpart of [`is_number_lit`].
fn is_number_lit_exec(s: &[u8]) -> (r: bool)
    ensures
        r == is_number_lit(s@),
{
    let n = s.len();
    let i0: usize = if n > 0 {
        let b = *vstd::slice::slice_index_get(s, 0);
        if b == 0x2b || b == 0x2d {
            1
        } else {
            0
        }
    } else {
        0
    };
    let d1 = digits_end_exec(s, i0);
    if d1 > i0 {
        let after = if d1 < n && *vstd::slice::slice_index_get(s, d1) == 0x2e {
            digits_end_exec(s, d1 + 1)
        } else {
            d1
        };
        exponent_ok_exec(s, after)
    } else if i0 < n && *vstd::slice::slice_index_get(s, i0) == 0x2e {
        let d2 = digits_end_exec(s, i0 + 1);
        d2 > i0 + 1 && exponent_ok_exec(s, d2)
    } else {
        false
    }
}

/// Executable counterpart of [`exponent_ok`].
fn exponent_ok_exec(s: &[u8], i: usize) -> (r: bool)
    requires
        i <= s@.len(),
    ensures
        r == exponent_ok(s@, i as int),
{
    let n = s.len();
    if i == n {
        true
    } else {
        let b = *vstd::slice::slice_index_get(s, i);
        if b == 0x65 || b == 0x45 {
            let j = if i + 1 < n {
                let c = *vstd::slice::slice_index_get(s, i + 1);
                if c == 0x2b || c == 0x2d {
                    i + 2
                } else {
                    i + 1
                }
            } else {
                i + 1
            };
            let d = digits_end_exec(s, j);
            d == n && d > j
        } else {
            false
        }
    }
}

} // verus!

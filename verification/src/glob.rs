//! Simple glob matching.
//!
//! Supported patterns:
//! - `*` matches any characters except for path separators, including an
//!   empty string.
//! - `**` matches any characters, including an empty string. For
//!   convenience, `/**/` also matches `/`, and a pattern starting `**/`
//!   also matches a name with no directory part at all.
//!
//! Comparison is ASCII-case-insensitive. The matching semantics are
//! written out as the specification functions [`glob_spec`], [`glob_at`]
//! and [`fast_path_spec`]; the executable matcher is proved to return
//! exactly what they say.

use vstd::prelude::*;

verus! {

use vstd::string::StringSliceAdditionalSpecFns;

/// ASCII lower-casing of one byte.
pub open spec fn ascii_lower(b: u8) -> u8 {
    if 0x41 <= b <= 0x5a {
        (b + 0x20) as u8
    } else {
        b
    }
}

/// ASCII-case-insensitive equality of two bytes.
pub open spec fn byte_eq_icase(a: u8, b: u8) -> bool {
    ascii_lower(a) == ascii_lower(b)
}

/// The path separator on this platform.
pub open spec fn is_sep(b: u8) -> bool {
    b == 0x2f
}

/// Whether the pattern holds a `*` anywhere.
pub open spec fn contains_star(s: Seq<u8>) -> bool {
    exists|i: int| 0 <= i < s.len() && s[i] == 0x2a
}

/// Case-insensitive suffix match: the last `suffix.len()` bytes of `path`
/// equal `suffix`.
pub open spec fn suffix_match(path: Seq<u8>, suffix: Seq<u8>) -> bool {
    &&& path.len() >= suffix.len()
    &&& forall|i: int|
        0 <= i < suffix.len() ==> byte_eq_icase(
            path[path.len() - suffix.len() + i],
            suffix[i],
        )
}

/// The general matching relation, over positions `px` into the pattern and
/// `nx` into the name. A `*` absorbs one non-separator byte at a time or
/// ends; `**` absorbs anything; a `/` directly after `/**` may be absorbed
/// with it.
pub open spec fn glob_at(p: Seq<u8>, n: Seq<u8>, px: int, nx: int) -> bool
    decreases n.len() - nx, p.len() - px,
    when 0 <= px && 0 <= nx
{
    if px >= p.len() {
        nx >= n.len()
    } else if p[px] == 0x2a {
        if px + 1 < p.len() && p[px + 1] == 0x2a {
            let after = if px >= 1 && p[px - 1] == 0x2f && px + 2 < p.len() && p[px + 2] == 0x2f {
                px + 3
            } else {
                px + 2
            };
            glob_at(p, n, after, nx) || (nx < n.len() && glob_at(p, n, px, nx + 1))
        } else {
            glob_at(p, n, px + 1, nx) || (nx < n.len() && !is_sep(n[nx]) && glob_at(
                p,
                n,
                px,
                nx + 1,
            ))
        }
    } else {
        nx < n.len() && byte_eq_icase(p[px], n[nx]) && glob_at(p, n, px + 1, nx + 1)
    }
}

/// The fast path's verdict, where it applies: patterns of the shape
/// `**/suffix` or `**/*suffix` with no further `*` in the suffix reduce to
/// a case-insensitive suffix check, anchored at a directory boundary for
/// the first shape.
pub open spec fn fast_path_spec(p: Seq<u8>, n: Seq<u8>) -> Option<bool> {
    if !(p.len() >= 3 && p[0] == 0x2a && p[1] == 0x2a && p[2] == 0x2f) {
        None
    } else {
        let rest = p.skip(3);
        if rest.len() == 0 {
            None
        } else {
            let anchored = rest[0] != 0x2a;
            let suffix = if anchored {
                rest
            } else {
                rest.skip(1)
            };
            if suffix.len() == 0 || contains_star(suffix) {
                None
            } else {
                Some(
                    suffix_match(n, suffix) && (!anchored || n.len() == suffix.len() || is_sep(
                        n[n.len() - suffix.len() - 1],
                    )),
                )
            }
        }
    }
}

/// What glob matching returns: the fast path's verdict where it applies,
/// the general relation otherwise.
pub open spec fn glob_spec(p: Seq<u8>, n: Seq<u8>) -> bool {
    match fast_path_spec(p, n) {
        Some(b) => b,
        None => glob_at(p, n, 0, 0),
    }
}

/// Matches `name` against `pattern`.
#[inline]
pub fn glob_match(pattern: &str, name: &str) -> (r: bool)
    ensures
        r == glob_spec(pattern.spec_bytes(), name.spec_bytes()),
{
    glob(pattern.as_bytes(), name.as_bytes())
}

/// Byte-level entry point of the matcher.
pub fn glob(pattern: &[u8], name: &[u8]) -> (r: bool)
    ensures
        r == glob_spec(pattern@, name@),
{
    match fast_path(pattern, name) {
        Some(b) => b,
        None => slow_path(pattern, name),
    }
}

/// Exec ASCII lower-casing.
fn lower(b: u8) -> (r: u8)
    ensures
        r == ascii_lower(b),
{
    if 0x41 <= b && b <= 0x5a {
        b + 0x20
    } else {
        b
    }
}

/// Fast pass for the most common patterns: matching files by extension
/// (`**/*.ext`) or by name (`**/filename`).
pub fn fast_path(pattern: &[u8], name: &[u8]) -> (r: Option<bool>)
    ensures
        r == fast_path_spec(pattern@, name@),
{
    let plen = pattern.len();
    if !(plen >= 3 && *vstd::slice::slice_index_get(pattern, 0) == 0x2a
        && *vstd::slice::slice_index_get(pattern, 1) == 0x2a && *vstd::slice::slice_index_get(
        pattern,
        2,
    ) == 0x2f) {
        return None;
    }
    if plen == 3 {
        proof {
            assert(pattern@.skip(3).len() == 0);
        }
        return None;
    }
    let anchored = *vstd::slice::slice_index_get(pattern, 3) != 0x2a;
    let start: usize = if anchored {
        3
    } else {
        4
    };
    let suffix = vstd::slice::slice_subrange(pattern, start, plen);
    proof {
        assert(pattern@.skip(3)[0] == pattern@[3]);
        if anchored {
            assert(suffix@ =~= pattern@.skip(3));
        } else {
            assert(suffix@ =~= pattern@.skip(3).skip(1));
        }
    }
    if suffix.len() == 0 || contains_magic(suffix) {
        return None;
    }
    let tail_ok = match_path_suffix(name, suffix);
    let anchor_ok = if !anchored || name.len() == suffix.len() {
        true
    } else if name.len() > suffix.len() {
        let b = *vstd::slice::slice_index_get(name, name.len() - suffix.len() - 1);
        b == 0x2f
    } else {
        false
    };
    proof {
        if name@.len() < suffix@.len() {
            assert(!suffix_match(name@, suffix@));
        }
    }
    Some(tail_ok && anchor_ok)
}

/// Whether the pattern holds a `*`.
pub fn contains_magic(pattern: &[u8]) -> (r: bool)
    ensures
        r == contains_star(pattern@),
{
    let n = pattern.len();
    let mut i: usize = 0;
    while i < n
        invariant
            i <= n,
            n == pattern@.len(),
            forall|k: int| 0 <= k < i ==> pattern@[k] != 0x2a,
        decreases n - i,
    {
        if *vstd::slice::slice_index_get(pattern, i) == 0x2a {
            return true;
        }
        i = i + 1;
    }
    false
}

/// Case-insensitive suffix check.
pub fn match_path_suffix(path: &[u8], suffix: &[u8]) -> (r: bool)
    ensures
        r == suffix_match(path@, suffix@),
{
    let n = suffix.len();
    if path.len() < n {
        return false;
    }
    let base = path.len() - n;
    let mut i: usize = 0;
    while i < n
        invariant
            i <= n,
            n == suffix@.len(),
            base == path@.len() - n,
            path@.len() >= n,
            path@.len() <= usize::MAX,
            forall|k: int| 0 <= k < i ==> byte_eq_icase(path@[base + k], suffix@[k]),
        decreases n - i,
    {
        let a = lower(*vstd::slice::slice_index_get(path, base + i));
        let b = lower(*vstd::slice::slice_index_get(suffix, i));
        if a != b {
            return false;
        }
        i = i + 1;
    }
    true
}

/// The general matcher, one backtracking step at a time; exact but not
/// fast, which is fine for how rarely it runs.
pub fn slow_path(pattern: &[u8], name: &[u8]) -> (r: bool)
    ensures
        r == glob_at(pattern@, name@, 0, 0),
{
    glob_at_exec(pattern, name, 0, 0)
}

/// Executable mirror of [`glob_at`].
fn glob_at_exec(pattern: &[u8], name: &[u8], px: usize, nx: usize) -> (r: bool)
    requires
        px <= pattern@.len(),
        nx <= name@.len(),
    ensures
        r == glob_at(pattern@, name@, px as int, nx as int),
    decreases name@.len() - nx, pattern@.len() - px,
{
    let plen = pattern.len();
    let nlen = name.len();
    if px >= plen {
        nx >= nlen
    } else if *vstd::slice::slice_index_get(pattern, px) == 0x2a {
        if px + 1 < plen && *vstd::slice::slice_index_get(pattern, px + 1) == 0x2a {
            let skip_sep = px >= 1 && *vstd::slice::slice_index_get(pattern, px - 1) == 0x2f && px
                + 2 < plen && *vstd::slice::slice_index_get(pattern, px + 2) == 0x2f;
            let after = if skip_sep {
                px + 3
            } else {
                px + 2
            };
            if glob_at_exec(pattern, name, after, nx) {
                true
            } else if nx < nlen {
                glob_at_exec(pattern, name, px, nx + 1)
            } else {
                false
            }
        } else {
            if glob_at_exec(pattern, name, px + 1, nx) {
                true
            } else if nx < nlen && *vstd::slice::slice_index_get(name, nx) != 0x2f {
                glob_at_exec(pattern, name, px, nx + 1)
            } else {
                false
            }
        }
    } else {
        if nx < nlen {
            let a = lower(*vstd::slice::slice_index_get(pattern, px));
            let b = lower(*vstd::slice::slice_index_get(name, nx));
            if a == b {
                glob_at_exec(pattern, name, px + 1, nx + 1)
            } else {
                false
            }
        } else {
            false
        }
    }
}

} // verus!

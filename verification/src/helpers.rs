//! Assorted helpers: metric size formatting, 2D geometry used by the
//! viewport code, min/max ordering, and ASCII string comparison.

use vstd::prelude::*;

verus! {

use vstd::std_specs::cmp::PartialOrdSpec;
use vstd::string::StringSliceAdditionalSpecFns;

pub const KILO: usize = 1000;

pub const MEGA: usize = 1000000;

pub const GIGA: usize = 1000000000;

pub const KIBI: usize = 1024;

pub const MEBI: usize = 1048576;

pub const GIBI: usize = 1073741824;

/// Wraps a byte count for display with a metric suffix.
pub struct MetricFormatter<T>(pub T);

impl MetricFormatter<usize> {
    /// The scaled value and its metric suffix: the largest of `GB`, `MB`,
    /// `kB` not exceeding the value, or plain bytes below one kilobyte.
    pub fn scaled(&self) -> (r: (usize, &'static str))
        ensures
            self.0 >= GIGA ==> r == (((self.0 / GIGA), "GB")),
            self.0 < GIGA && self.0 >= MEGA ==> r == (((self.0 / MEGA), "MB")),
            self.0 < MEGA && self.0 >= KILO ==> r == (((self.0 / KILO), "kB")),
            self.0 < KILO ==> r == ((self.0, "B")),
    {
        if self.0 >= GIGA {
            (self.0 / GIGA, "GB")
        } else if self.0 >= MEGA {
            (self.0 / MEGA, "MB")
        } else if self.0 >= KILO {
            (self.0 / KILO, "kB")
        } else {
            (self.0, "B")
        }
    }
}

/// A viewport coordinate type used throughout the application.
pub type CoordType = isize;

/// Half the bits of [`CoordType`]: a bound safe to add to itself.
pub const COORD_TYPE_SAFE_MAX: CoordType = 0x7fffffff;

/// A 2D point. Ordered row-major: by `y`, then by `x`.
#[derive(Default, Debug, Clone, Copy, PartialEq, Eq, Structural)]
pub struct Point {
    pub x: CoordType,
    pub y: CoordType,
}

impl PartialOrd for Point {
    fn partial_cmp(&self, other: &Point) -> (r: Option<core::cmp::Ordering>) {
        if self.y < other.y {
            Some(core::cmp::Ordering::Less)
        } else if self.y > other.y {
            Some(core::cmp::Ordering::Greater)
        } else if self.x < other.x {
            Some(core::cmp::Ordering::Less)
        } else if self.x > other.x {
            Some(core::cmp::Ordering::Greater)
        } else {
            Some(core::cmp::Ordering::Equal)
        }
    }
}

impl vstd::std_specs::cmp::PartialOrdSpecImpl for Point {
    open spec fn obeys_partial_cmp_spec() -> bool {
        true
    }

    open spec fn partial_cmp_spec(&self, other: &Point) -> Option<core::cmp::Ordering> {
        if self.y < other.y {
            Some(core::cmp::Ordering::Less)
        } else if self.y > other.y {
            Some(core::cmp::Ordering::Greater)
        } else if self.x < other.x {
            Some(core::cmp::Ordering::Less)
        } else if self.x > other.x {
            Some(core::cmp::Ordering::Greater)
        } else {
            Some(core::cmp::Ordering::Equal)
        }
    }
}

/// A 2D size.
#[derive(Default, Debug, Clone, Copy, PartialEq, Eq, Structural)]
pub struct Size {
    pub width: CoordType,
    pub height: CoordType,
}

impl Size {
    /// The rectangle spanning this size from the origin.
    pub fn as_rect(&self) -> (r: Rect)
        ensures
            r == (Rect { left: 0, top: 0, right: self.width, bottom: self.height }),
    {
        Rect { left: 0, top: 0, right: self.width, bottom: self.height }
    }
}

/// A 2D rectangle.
#[derive(Default, Debug, Clone, Copy, PartialEq, Eq, Structural)]
pub struct Rect {
    pub left: CoordType,
    pub top: CoordType,
    pub right: CoordType,
    pub bottom: CoordType,
}

impl Rect {
    /// Mimics CSS's `padding` property where `padding: a` is `a a a a`.
    pub fn one(value: CoordType) -> (r: Rect)
        ensures
            r == (Rect { left: value, top: value, right: value, bottom: value }),
    {
        Rect { left: value, top: value, right: value, bottom: value }
    }

    /// Mimics CSS's `padding` property where `padding: a b` is `a b a b`,
    /// and `a` is top/bottom and `b` is left/right.
    pub fn two(top_bottom: CoordType, left_right: CoordType) -> (r: Rect)
        ensures
            r == (Rect {
                left: left_right,
                top: top_bottom,
                right: left_right,
                bottom: top_bottom,
            }),
    {
        Rect { left: left_right, top: top_bottom, right: left_right, bottom: top_bottom }
    }

    /// Mimics CSS's `padding` property where `padding: a b c` is `a b c b`,
    /// and `a` is top, `b` is left/right, and `c` is bottom.
    pub fn three(top: CoordType, left_right: CoordType, bottom: CoordType) -> (r: Rect)
        ensures
            r == (Rect { left: left_right, top, right: left_right, bottom }),
    {
        Rect { left: left_right, top, right: left_right, bottom }
    }

    /// Is the rectangle empty?
    pub fn is_empty(&self) -> (r: bool)
        ensures
            r == (self.left >= self.right || self.top >= self.bottom),
    {
        self.left >= self.right || self.top >= self.bottom
    }

    /// Width of the rectangle.
    pub fn width(&self) -> (r: CoordType)
        requires
            self.right - self.left <= CoordType::MAX,
            self.right - self.left >= CoordType::MIN,
        ensures
            r == self.right - self.left,
    {
        self.right - self.left
    }

    /// Height of the rectangle.
    pub fn height(&self) -> (r: CoordType)
        requires
            self.bottom - self.top <= CoordType::MAX,
            self.bottom - self.top >= CoordType::MIN,
        ensures
            r == self.bottom - self.top,
    {
        self.bottom - self.top
    }

    /// Check if it contains a point.
    pub fn contains(&self, point: Point) -> (r: bool)
        ensures
            r == (point.x >= self.left && point.x < self.right && point.y >= self.top && point.y
                < self.bottom),
    {
        point.x >= self.left && point.x < self.right && point.y >= self.top && point.y
            < self.bottom
    }

    /// Intersect two rectangles, clamping so the result is never negative
    /// in either dimension.
    pub fn intersect(&self, rhs: Rect) -> (r: Rect)
        ensures
            r.left == max_coord(self.left, rhs.left),
            r.top == max_coord(self.top, rhs.top),
            r.right == max_coord(r.left, min_coord(self.right, rhs.right)),
            r.bottom == max_coord(r.top, min_coord(self.bottom, rhs.bottom)),
            r.left <= r.right,
            r.top <= r.bottom,
    {
        let l = if self.left >= rhs.left {
            self.left
        } else {
            rhs.left
        };
        let t = if self.top >= rhs.top {
            self.top
        } else {
            rhs.top
        };
        let r0 = if self.right <= rhs.right {
            self.right
        } else {
            rhs.right
        };
        let b0 = if self.bottom <= rhs.bottom {
            self.bottom
        } else {
            rhs.bottom
        };
        let r1 = if r0 >= l {
            r0
        } else {
            l
        };
        let b1 = if b0 >= t {
            b0
        } else {
            t
        };
        Rect { left: l, top: t, right: r1, bottom: b1 }
    }
}

pub open spec fn max_coord(a: CoordType, b: CoordType) -> CoordType {
    if a >= b {
        a
    } else {
        b
    }
}

pub open spec fn min_coord(a: CoordType, b: CoordType) -> CoordType {
    if a <= b {
        a
    } else {
        b
    }
}

/// Marks a cold path: a placement hint for rarely taken branches.
#[inline]
pub fn cold_path() {
}

/// In-buffer range replacement for `Copy` payloads: removes `[start, end)`
/// (clamped to the length), shifts the tail, and copies `src` into the gap.
pub trait ReplaceRange<T: Copy>: View<V = Seq<T>> {
    fn replace_range(&mut self, start: usize, end: usize, src: &[T])
        requires
            old(self)@.len() + src@.len() <= usize::MAX,
        ensures
            ({
                let off = if start <= old(self)@.len() {
                    start as int
                } else {
                    old(self)@.len() as int
                };
                let avail = old(self)@.len() - off;
                let want = if end as int >= off {
                    end - off
                } else {
                    0
                };
                let del = if want <= avail {
                    want
                } else {
                    avail
                };
                final(self)@ == old(self)@.subrange(0, off) + src@ + old(self)@.subrange(
                    off + del,
                    old(self)@.len() as int,
                )
            }),
    ;
}

impl<T: Copy> ReplaceRange<T> for Vec<T> {
    fn replace_range(&mut self, start: usize, end: usize, src: &[T]) {
        let dst_len = self.len();
        let src_len = src.len();
        let off = if start <= dst_len {
            start
        } else {
            dst_len
        };
        let want = if end >= off {
            end - off
        } else {
            0
        };
        let avail = dst_len - off;
        let del_len = if want <= avail {
            want
        } else {
            avail
        };
        if del_len == 0 && src_len == 0 {
            proof {
                assert(old(self)@.subrange(0, off as int) + src@ + old(self)@.subrange(
                    off as int,
                    old(self)@.len() as int,
                ) =~= old(self)@);
            }
            return ;
        }
        let mut tail = self.split_off(off + del_len);
        self.truncate(off);
        proof {
            assert(tail@ =~= old(self)@.subrange(off + del_len, old(self)@.len() as int));
            assert(self@ =~= old(self)@.subrange(0, off as int));
            assert(self@ =~= old(self)@.subrange(0, off as int) + src@.subrange(0, 0));
        }
        let mut i: usize = 0;
        while i < src_len
            invariant
                i <= src@.len(),
                src_len == src@.len(),
                off <= old(self)@.len(),
                off + del_len <= old(self)@.len(),
                tail@ == old(self)@.subrange(off + del_len, old(self)@.len() as int),
                self@ == old(self)@.subrange(0, off as int) + src@.subrange(0, i as int),
            decreases src_len - i,
        {
            let x = *vstd::slice::slice_index_get(src, i);
            self.push(x);
            i = i + 1;
            proof {
                assert(self@ =~= old(self)@.subrange(0, off as int) + src@.subrange(0, i as int));
            }
        }
        self.append(&mut tail);
        proof {
            assert(src@.subrange(0, src@.len() as int) =~= src@);
            assert(self@ =~= old(self)@.subrange(0, off as int) + src@ + old(self)@.subrange(
                off + del_len,
                old(self)@.len() as int,
            ));
        }
    }
}

/// ASCII-case-insensitive prefix test for strings.
pub trait AsciiStringHelpers {
    /// The bytes the comparison runs over.
    spec fn cmp_bytes(&self) -> Seq<u8>;

    /// Tests if a string starts with a given ASCII prefix, ignoring ASCII
    /// case on both sides.
    fn starts_with_ignore_ascii_case(&self, prefix: &str) -> (r: bool)
        ensures
            r == starts_with_icase(self.cmp_bytes(), prefix.spec_bytes()),
    ;
}

/// `p` is a prefix of `s` up to ASCII case.
pub open spec fn starts_with_icase(s: Seq<u8>, p: Seq<u8>) -> bool {
    &&& p.len() <= s.len()
    &&& forall|i: int| 0 <= i < p.len() ==> crate::glob::byte_eq_icase(s[i], p[i])
}

impl AsciiStringHelpers for str {
    open spec fn cmp_bytes(&self) -> Seq<u8> {
        self.spec_bytes()
    }

    fn starts_with_ignore_ascii_case(&self, prefix: &str) -> (r: bool) {
        let s = self.as_bytes();
        let p = prefix.as_bytes();
        let n = p.len();
        if s.len() < n {
            return false;
        }
        let mut i: usize = 0;
        while i < n
            invariant
                i <= n,
                n == p@.len(),
                s@.len() >= n,
                s@ == self.cmp_bytes(),
                p@ == prefix.spec_bytes(),
                forall|k: int| 0 <= k < i ==> crate::glob::byte_eq_icase(s@[k], p@[k]),
            decreases n - i,
        {
            let a = ascii_lower_byte(*vstd::slice::slice_index_get(s, i));
            let b = ascii_lower_byte(*vstd::slice::slice_index_get(p, i));
            if a != b {
                return false;
            }
            i = i + 1;
        }
        true
    }
}

/// Exec ASCII lower-casing of one byte.
fn ascii_lower_byte(b: u8) -> (r: u8)
    ensures
        r == crate::glob::ascii_lower(b),
{
    if 0x41 <= b && b <= 0x5a {
        b + 0x20
    } else {
        b
    }
}

/// The two values in ascending order, per the type's `partial_cmp`.
pub fn minmax<T: Ord>(v1: T, v2: T) -> (r: (T, T))
    ensures
        (r.0 == v1 && r.1 == v2) || (r.0 == v2 && r.1 == v1),
        T::obeys_partial_cmp_spec() ==> {
            if v2.partial_cmp_spec(&v1) == Some(core::cmp::Ordering::Less) {
                r.0 == v2 && r.1 == v1
            } else {
                r.0 == v1 && r.1 == v2
            }
        },
{
    if v2 < v1 {
        (v2, v1)
    } else {
        (v1, v2)
    }
}

} // verus!

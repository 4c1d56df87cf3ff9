use editcore::helpers::{
    cold_path, minmax, AsciiStringHelpers, MetricFormatter, Point, Rect, ReplaceRange, Size,
    GIGA, KILO, MEGA,
};

#[test]
fn metric_formatter_scales() {
    assert_eq!(MetricFormatter(512usize).scaled(), (512, "B"));
    assert_eq!(MetricFormatter(2 * KILO).scaled(), (2, "kB"));
    assert_eq!(MetricFormatter(3 * MEGA + 5).scaled(), (3, "MB"));
    assert_eq!(MetricFormatter(7 * GIGA).scaled(), (7, "GB"));
    let (v, suffix) = MetricFormatter(1536usize).scaled();
    assert_eq!(format!("{v}{suffix}"), "1kB");
}

#[test]
fn rect_constructors_mimic_css_padding() {
    assert_eq!(Rect::one(2), Rect { left: 2, top: 2, right: 2, bottom: 2 });
    assert_eq!(Rect::two(1, 2), Rect { left: 2, top: 1, right: 2, bottom: 1 });
    assert_eq!(Rect::three(1, 2, 3), Rect { left: 2, top: 1, right: 2, bottom: 3 });
}

#[test]
fn rect_geometry() {
    let r = Rect { left: 1, top: 2, right: 5, bottom: 8 };
    assert!(!r.is_empty());
    assert_eq!(r.width(), 4);
    assert_eq!(r.height(), 6);
    assert!(r.contains(Point { x: 1, y: 2 }));
    assert!(!r.contains(Point { x: 5, y: 2 }));
    assert!(Rect::one(0).is_empty());
}

#[test]
fn rect_intersection_clamps() {
    let a = Rect { left: 0, top: 0, right: 10, bottom: 10 };
    let b = Rect { left: 5, top: 5, right: 15, bottom: 15 };
    assert_eq!(a.intersect(b), Rect { left: 5, top: 5, right: 10, bottom: 10 });
    let c = Rect { left: 20, top: 20, right: 30, bottom: 30 };
    let empty = a.intersect(c);
    assert!(empty.is_empty());
    assert_eq!(empty.width(), 0);
}

#[test]
fn size_as_rect() {
    let s = Size { width: 3, height: 4 };
    assert_eq!(s.as_rect(), Rect { left: 0, top: 0, right: 3, bottom: 4 });
}

#[test]
fn minmax_orders() {
    assert_eq!(minmax(3, 5), (3, 5));
    assert_eq!(minmax(5, 3), (3, 5));
    assert_eq!(minmax(4, 4), (4, 4));
    cold_path();
}

#[test]
fn point_ordering_is_row_major() {
    let a = Point { x: 5, y: 1 };
    let b = Point { x: 0, y: 2 };
    assert!(a < b);
    assert!(b > a);
    assert!(Point { x: 1, y: 2 } < Point { x: 2, y: 2 });
    assert_eq!(Point { x: 1, y: 2 }, Point { x: 1, y: 2 });
}

#[test]
fn vec_replace_range_splices() {
    let mut v = vec![1u8, 2, 3, 4, 5];
    ReplaceRange::replace_range(&mut v, 1, 3, &[9, 9, 9, 9]);
    assert_eq!(v, vec![1, 9, 9, 9, 9, 4, 5]);
    ReplaceRange::replace_range(&mut v, 0, 5, &[]);
    assert_eq!(v, vec![4, 5]);
    ReplaceRange::replace_range(&mut v, 2, 2, &[6]);
    assert_eq!(v, vec![4, 5, 6]);
}

#[test]
fn ascii_prefix_comparison() {
    assert!("HELLO world".starts_with_ignore_ascii_case("hello"));
    assert!("hello".starts_with_ignore_ascii_case("HELLO"));
    assert!(!"hello".starts_with_ignore_ascii_case("hello!"));
    assert!(!"abc".starts_with_ignore_ascii_case("abd"));
    assert!("anything".starts_with_ignore_ascii_case(""));
}

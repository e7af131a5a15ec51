use md_ansi::xy::XY;

#[test]
fn new_and_cells() {
    assert_eq!(XY::new(5).cells(), 5);
    assert_eq!(XY::new(0), XY::default());
    assert_eq!(XY::new(65535).cells(), u16::MAX);
}

#[test]
fn conversions() {
    assert_eq!(XY::from(7u16), XY::new(7));
    assert_eq!(usize::from(XY::new(9)), 9usize);
    let n: usize = XY::new(300).into();
    assert_eq!(n, 300);
    assert_eq!(XY::try_from(65535usize).unwrap(), XY::new(65535));
    assert!(XY::try_from(65536usize).is_err());
    assert_eq!(XY::try_from(0usize).unwrap(), XY::new(0));
}

#[test]
fn clamped_holds_at_largest() {
    assert_eq!(XY::clamped(12), XY::new(12));
    assert_eq!(XY::clamped(65535), XY::new(65535));
    assert_eq!(XY::clamped(65536), XY::new(65535));
    assert_eq!(XY::clamped(usize::MAX), XY::new(65535));
}

#[test]
fn sums_saturate() {
    assert_eq!(XY::new(2) + XY::new(3), XY::new(5));
    assert_eq!(XY::new(65530) + XY::new(5), XY::new(65535));
    assert_eq!(XY::new(65530) + XY::new(10), XY::new(65535));
    assert_eq!(XY::new(65535) + XY::new(65535), XY::new(65535));
}

#[test]
fn differences_saturate() {
    assert_eq!(XY::new(5) - XY::new(3), XY::new(2));
    assert_eq!(XY::new(3) - XY::new(3), XY::new(0));
    assert_eq!(XY::new(3) - XY::new(5), XY::new(0));
    assert_eq!(XY::new(0) - XY::new(65535), XY::new(0));
}

#[test]
fn coordinates_are_ordered() {
    assert!(XY::new(1) < XY::new(2));
    assert!(XY::new(2) >= XY::new(2));
    assert_eq!(XY::new(3).max(XY::new(8)), XY::new(8));
}

#[test]
fn coordinates_as_text() {
    assert_eq!(XY::new(0).to_text(), "0");
    assert_eq!(XY::new(42).to_text(), "42");
    assert_eq!(XY::new(65535).to_text(), "65535");
}

#[test]
fn order_goes_by_the_numbers() {
    let numbers = [0u16, 1, 2, 255, 256, 1000, 65534, 65535];
    for &n in &numbers {
        for &m in &numbers {
            let (a, b) = (XY::new(n), XY::new(m));
            assert_eq!(a < b, n < m);
            assert_eq!(a <= b, n <= m);
            assert_eq!(a > b, n > m);
            assert_eq!(a >= b, n >= m);
            assert_eq!(a == b, n == m);
            assert_eq!(a.partial_cmp(&b), n.partial_cmp(&m));
            assert_eq!(a.cmp(&b), n.cmp(&m));
        }
    }
}

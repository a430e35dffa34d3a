use m2_syn::{TextPoint, TextRange};

fn range(start: usize, end: usize) -> TextRange {
    TextRange::new(TextPoint::new(0, start as u32, start), TextPoint::new(0, end as u32, end))
}

#[test]
fn range_operators_are_join_and_meet() {
    let a = range(1, 4);
    let b = range(3, 9);
    let c = range(6, 8);
    assert_eq!(a | b, range(1, 9));
    assert_eq!(a | b, b | a);
    assert_eq!(a | TextRange::Empty, a);
    assert_eq!(TextRange::Empty | b, b);
    assert_eq!(a & b, range(3, 4));
    assert_eq!(a & b, b & a);
    assert_eq!(a & c, TextRange::Empty);
    assert_eq!(a & range(4, 5), range(4, 4));
    assert_eq!(a & TextRange::Empty, TextRange::Empty);
}

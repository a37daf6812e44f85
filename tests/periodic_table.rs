use atomcad::periodic_table::{Element, MAX_ATOMIC_NUMBER, MIN_ATOMIC_NUMBER};

#[test]
fn atomic_numbers_round_trip() {
    for n in 0..=255u8 {
        match Element::from_atomic_number(n) {
            Some(e) => {
                assert!((MIN_ATOMIC_NUMBER..=MAX_ATOMIC_NUMBER).contains(&n));
                assert_eq!(e.atomic_number(), n);
            }
            None => assert!(n == 0 || n > 118),
        }
    }
}

#[test]
fn known_elements() {
    assert_eq!(Element::from_atomic_number(1), Some(Element::Hydrogen));
    assert_eq!(Element::from_atomic_number(6), Some(Element::Carbon));
    assert_eq!(Element::from_atomic_number(8), Some(Element::Oxygen));
    assert_eq!(Element::from_atomic_number(118), Some(Element::Oganesson));
    assert_eq!(Element::from_atomic_number(0), None);
    assert_eq!(Element::from_atomic_number(119), None);
    assert_eq!(Element::Carbon.atomic_number(), 6);
    assert!(Element::Hydrogen < Element::Oganesson);
}

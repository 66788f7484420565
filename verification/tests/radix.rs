use create_gadget::radix::{reversed, to_le_bytes};

#[test]
fn bytes_of_a_number_come_least_significant_first() {
    assert_eq!(to_le_bytes(0x0102_0304, 8), vec![4, 3, 2, 1, 0, 0, 0, 0]);
    assert_eq!(to_le_bytes(0x0102_0304, 2), vec![4, 3]);
    assert_eq!(to_le_bytes(u64::MAX, 8), vec![255; 8]);
}

#[test]
fn reversing_turns_the_order_round() {
    assert_eq!(reversed(&[1, 2, 3]), vec![3, 2, 1]);
    assert_eq!(reversed(&[]), Vec::<u8>::new());
}

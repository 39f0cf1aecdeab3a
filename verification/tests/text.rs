use ezno_checker::text::{decimal_string, slice_text};

#[test]
fn numbers_are_written_in_decimal_digits() {
    assert_eq!(decimal_string(0), "0");
    assert_eq!(decimal_string(7), "7");
    assert_eq!(decimal_string(9), "9");
    assert_eq!(decimal_string(10), "10");
    assert_eq!(decimal_string(1234567890), "1234567890");
    assert_eq!(decimal_string(u64::MAX), "18446744073709551615");
    for n in 0u64..2000 {
        assert_eq!(decimal_string(n), n.to_string());
    }
}

#[test]
fn a_part_of_a_text_is_cut_out_by_byte_offsets() {
    assert_eq!(slice_text("2024-07", 0, 4), Some("2024".to_owned()));
    assert_eq!(slice_text("2024-07", 5, 7), Some("07".to_owned()));
    assert_eq!(slice_text("2024-07", 0, 7), Some("2024-07".to_owned()));
    assert_eq!(slice_text("2024-07", 3, 3), Some(String::new()));
    assert_eq!(slice_text("2024-07", 7, 7), Some(String::new()));
    assert_eq!(slice_text("", 0, 0), Some(String::new()));
    assert_eq!(slice_text("héllo", 0, 3), Some("hé".to_owned()));
    assert_eq!(slice_text("héllo", 1, 3), Some("é".to_owned()));
    assert_eq!(slice_text("日本語", 3, 9), Some("本語".to_owned()));
}

#[test]
fn offsets_that_are_no_boundaries_in_order_cut_nothing_out() {
    assert_eq!(slice_text("2024-07", 4, 2), None);
    assert_eq!(slice_text("2024-07", 0, 8), None);
    assert_eq!(slice_text("2024-07", 8, 9), None);
    assert_eq!(slice_text("héllo", 0, 2), None);
    assert_eq!(slice_text("héllo", 2, 3), None);
    assert_eq!(slice_text("日本語", 1, 3), None);
    assert_eq!(slice_text("", 0, 1), None);
    assert_eq!(slice_text("abc", usize::MAX, usize::MAX), None);
}

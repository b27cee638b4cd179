use brd::utils::{
    bitarray_to_byte, byte_to_bitarray, get_nth_bit, join_display_values, push_decimal,
    push_signed_decimal,
};

#[test]
fn get_nth_bit_reads_each_bit() {
    assert!(get_nth_bit(0b0000_0001, 0));
    assert!(!get_nth_bit(0b0000_0001, 1));
    assert!(get_nth_bit(0b1000_0000, 7));
    assert!(!get_nth_bit(0b0111_1111, 7));
    assert!(get_nth_bit(0b0010_0000, 5));
}

#[test]
fn byte_to_bitarray_starts_with_the_lowest_bit() {
    assert_eq!(
        byte_to_bitarray(0b0000_0101),
        [true, false, true, false, false, false, false, false]
    );
    assert_eq!(byte_to_bitarray(0), [false; 8]);
    assert_eq!(byte_to_bitarray(0xff), [true; 8]);
}

#[test]
fn bitarray_to_byte_weighs_the_bits() {
    assert_eq!(
        bitarray_to_byte([true, false, false, true, false, false, false, false]),
        9
    );
    assert_eq!(bitarray_to_byte([false; 8]), 0);
    assert_eq!(bitarray_to_byte([true; 8]), 255);
}

#[test]
fn bits_and_bytes_round_trip() {
    for byte in 0..=255u8 {
        assert_eq!(bitarray_to_byte(byte_to_bitarray(byte)), byte);
        let bits = byte_to_bitarray(byte);
        assert_eq!(byte_to_bitarray(bitarray_to_byte(bits)), bits);
    }
}

#[test]
fn join_display_values_puts_the_separator_between() {
    let values = vec![String::from("a"), String::from("bc"), String::new()];
    assert_eq!(join_display_values(values, ", "), "a, bc, ");
    assert_eq!(join_display_values(vec![String::from("x")], "--"), "x");
    assert_eq!(join_display_values(Vec::new(), "--"), "");
}

#[test]
fn push_decimal_appends_the_digits() {
    let mut text = String::from("n=");
    push_decimal(&mut text, 0);
    push_decimal(&mut text, 907);
    push_decimal(&mut text, u64::MAX);
    assert_eq!(text, "n=090718446744073709551615");
}

#[test]
fn push_signed_decimal_writes_the_sign() {
    let mut text = String::new();
    push_signed_decimal(&mut text, -1);
    push_signed_decimal(&mut text, 25);
    push_signed_decimal(&mut text, i64::MIN);
    assert_eq!(text, "-125-9223372036854775808");
}

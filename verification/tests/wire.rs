use fssh::wire::{
    array_at, length_field, pop_ssh_bytes, push_byte, push_bytes, push_ssh_bytes, push_ssh_string,
    push_u32, read_u32, same_bytes, try_pop_ssh_bytes, u32_from_be_bytes, u32_to_be_bytes,
    u64_to_be_bytes,
};

#[test]
fn numbers_are_written_most_significant_byte_first() {
    assert_eq!(u32_to_be_bytes(0x0102_a3ff), [0x01, 0x02, 0xa3, 0xff]);
    assert_eq!(u64_to_be_bytes(0x0102_0304_0506_f7f8), [1, 2, 3, 4, 5, 6, 0xf7, 0xf8]);
    let mut buf = vec![9u8];
    push_u32(&mut buf, 2097152);
    assert_eq!(buf, vec![9, 0x00, 0x20, 0x00, 0x00]);
}

#[test]
fn numbers_are_read_back() {
    for x in [0u32, 1, 255, 256, 65535, 65536, 0x1234_5678, u32::MAX] {
        assert_eq!(u32_from_be_bytes(&u32_to_be_bytes(x)), x);
    }
    let bytes = [0xde, 0xad, 0xbe, 0xef];
    assert_eq!(u32_to_be_bytes(u32_from_be_bytes(&bytes)), bytes);
}

#[test]
fn read_u32_moves_behind_the_number() {
    let payload = [7u8, 0, 0, 1, 2, 0xff, 0xff, 0xff, 0xfe];
    let mut offset = 1;
    assert_eq!(read_u32(&payload, &mut offset), 258);
    assert_eq!(offset, 5);
    assert_eq!(read_u32(&payload, &mut offset), 0xffff_fffe);
    assert_eq!(offset, 9);
}

#[test]
fn strings_carry_the_length_of_their_utf8_form() {
    let mut buf = Vec::new();
    push_ssh_string(&mut buf, "none");
    push_ssh_string(&mut buf, "");
    push_ssh_string(&mut buf, "\u{e9}");
    assert_eq!(
        buf,
        vec![0, 0, 0, 4, b'n', b'o', b'n', b'e', 0, 0, 0, 0, 0, 0, 0, 2, 0xc3, 0xa9]
    );
}

#[test]
fn byte_strings_are_popped_as_they_were_pushed() {
    let mut buf = vec![1u8, 2];
    push_ssh_bytes(&mut buf, &[5, 6, 7]);
    push_ssh_bytes(&mut buf, &[]);
    push_byte(&mut buf, 99);
    push_bytes(&mut buf, &[98, 97]);
    assert_eq!(buf, vec![1, 2, 0, 0, 0, 3, 5, 6, 7, 0, 0, 0, 0, 99, 98, 97]);
    let mut offset = 2;
    assert_eq!(pop_ssh_bytes(&buf, &mut offset), &[5, 6, 7]);
    assert_eq!(offset, 9);
    assert_eq!(pop_ssh_bytes(&buf, &mut offset), &[] as &[u8]);
    assert_eq!(offset, 13);
}

#[test]
fn a_byte_string_cut_short_is_not_popped() {
    let whole = [0u8, 0, 0, 2, 8, 9];
    let mut offset = 0;
    assert_eq!(try_pop_ssh_bytes(&whole, &mut offset), Some(&[8u8, 9][..]));
    assert_eq!(offset, 6);
    assert_eq!(try_pop_ssh_bytes(&whole, &mut offset), None);
    assert_eq!(offset, 6);
    let mut offset = 0;
    assert_eq!(try_pop_ssh_bytes(&whole[..5], &mut offset), None);
    assert_eq!(try_pop_ssh_bytes(&whole[..3], &mut offset), None);
    assert_eq!(offset, 0);
    let mut beyond = 100;
    assert_eq!(try_pop_ssh_bytes(&whole, &mut beyond), None);
    assert_eq!(beyond, 100);
    let mut offset = 0;
    assert_eq!(try_pop_ssh_bytes(&[0xff, 0xff, 0xff, 0xff, 1], &mut offset), None);
}

#[test]
fn small_helpers() {
    assert!(same_bytes(&[1, 2], &[1, 2]));
    assert!(!same_bytes(&[1, 2], &[1, 3]));
    assert!(!same_bytes(&[1, 2], &[1, 2, 3]));
    let middle: [u8; 3] = array_at(&[1, 2, 3, 4, 5], 1);
    assert_eq!(middle, [2, 3, 4]);
    assert_eq!(length_field(0), 0);
    assert_eq!(length_field(0xffff_ffff), 0xffff_ffff);
    assert_eq!(length_field(0x1_0000_0005), 5);
}

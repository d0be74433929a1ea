use rvkernel::cstr::{strcmp, strcpy};
use rvkernel::mem::{memcpy, memset};

#[test]
fn memset_fills_first_n_words() {
    let mut buf = [1u32, 2, 3, 4, 5];
    memset(&mut buf, 0xdead_beef, 3);
    assert_eq!(buf, [0xdead_beef, 0xdead_beef, 0xdead_beef, 4, 5]);
}

#[test]
fn memset_with_zero_count_changes_nothing() {
    let mut buf = [1u32, 2, 3];
    memset(&mut buf, 9, 0);
    assert_eq!(buf, [1, 2, 3]);
}

#[test]
fn memset_whole_buffer() {
    let mut buf = [1u32, 2, 3];
    memset(&mut buf, 0, 3);
    assert_eq!(buf, [0, 0, 0]);
}

#[test]
fn memcpy_copies_first_n_bytes() {
    let mut dst = [0u8; 6];
    let src = [10u8, 11, 12, 13];
    memcpy(&mut dst, &src, 3);
    assert_eq!(dst, [10, 11, 12, 0, 0, 0]);
}

#[test]
fn memcpy_with_zero_count_changes_nothing() {
    let mut dst = [7u8; 3];
    memcpy(&mut dst, &[1, 2, 3], 0);
    assert_eq!(dst, [7, 7, 7]);
}

#[test]
fn strcpy_copies_string_and_terminator() {
    let mut dst = [0xAAu8; 8];
    strcpy(&mut dst, b"hi\0junk");
    assert_eq!(dst, [b'h', b'i', 0, 0xAA, 0xAA, 0xAA, 0xAA, 0xAA]);
}

#[test]
fn strcpy_of_empty_string_writes_only_terminator() {
    let mut dst = [5u8; 3];
    strcpy(&mut dst, b"\0abc");
    assert_eq!(dst, [0, 5, 5]);
}

#[test]
fn strcpy_into_exactly_fitting_buffer() {
    let mut dst = [9u8; 4];
    strcpy(&mut dst, b"abc\0");
    assert_eq!(&dst, b"abc\0");
}

#[test]
fn strcmp_equal_strings_give_zero() {
    assert_eq!(strcmp(b"kernel\0", b"kernel\0"), 0);
}

#[test]
fn strcmp_ignores_bytes_after_terminator() {
    assert_eq!(strcmp(b"ab\0xyz", b"ab\0qq"), 0);
}

#[test]
fn strcmp_returns_difference_of_first_differing_bytes() {
    assert_eq!(strcmp(b"ab\0", b"ac\0"), -1);
    assert_eq!(strcmp(b"b\0", b"a\0"), 1);
    assert_eq!(strcmp(b"z\0", b"A\0"), 122 - 65);
}

#[test]
fn strcmp_prefix_compares_against_terminator() {
    assert_eq!(strcmp(b"abc\0", b"ab\0"), 99);
    assert_eq!(strcmp(b"ab\0", b"abc\0"), -99);
    assert_eq!(strcmp(b"\0", b"x\0"), -120);
}

#[test]
fn strcmp_with_high_bytes_is_unsigned() {
    assert_eq!(strcmp(&[0xFF, 0], &[0x01, 0]), 254);
}

#[test]
fn strcmp_self_is_zero() {
    let s = b"same\0";
    assert_eq!(strcmp(s, s), 0);
}

#[test]
fn strcmp_swapped_arguments_negate() {
    let a = b"apple\0";
    let b = b"apricot\0";
    assert_eq!(strcmp(a, b), -strcmp(b, a));
    assert!(strcmp(a, b) < 0);
}

#[test]
fn strcpy_then_strcmp_is_zero() {
    let src = b"copy me\0tail";
    let mut dst = [0x55u8; 12];
    strcpy(&mut dst, src);
    assert_eq!(strcmp(&dst, src), 0);
    assert_eq!(strcmp(src, &dst), 0);
}

#[test]
fn is_aligned_on_power_of_two() {
    assert!(rvkernel::mem::is_aligned(0x8000_1000, 4096));
    assert!(!rvkernel::mem::is_aligned(0x8000_1004, 4096));
    assert!(rvkernel::mem::is_aligned(12, 4));
    assert!(rvkernel::mem::is_aligned(7, 1));
}

#[test]
fn is_aligned_rejects_alignment_that_is_not_power_of_two() {
    assert!(!rvkernel::mem::is_aligned(12, 6));
    assert!(!rvkernel::mem::is_aligned(0, 0));
    assert!(!rvkernel::mem::is_aligned(0, 3));
}

use zync::decimal::{format_u64, parse_u64};
use zync::text::{
    bytes_eq, copy_range, is_padding_byte, is_space_byte, split_line, split_pieces, split_tokens,
    starts_with, trim_bytes, Separator,
};

#[test]
fn tokens_are_split_at_runs_of_whitespace() {
    let toks = split_tokens(b"PUT  notes.txt\t13\n");
    assert_eq!(toks, vec![b"PUT".to_vec(), b"notes.txt".to_vec(), b"13".to_vec()]);
}

#[test]
fn whitespace_alone_has_no_token() {
    assert_eq!(split_tokens(b" \t\r\n"), Vec::<Vec<u8>>::new());
    assert_eq!(split_tokens(b""), Vec::<Vec<u8>>::new());
}

#[test]
fn nul_is_no_separator_inside_a_line() {
    assert_eq!(split_tokens(b"a\0b c"), vec![b"a\0b".to_vec(), b"c".to_vec()]);
}

#[test]
fn segments_are_split_at_slashes() {
    let segs = split_pieces(Separator::Slash, b"/home//user/file.txt/");
    assert_eq!(segs, vec![b"home".to_vec(), b"user".to_vec(), b"file.txt".to_vec()]);
}

#[test]
fn trim_strips_nul_padding_and_whitespace() {
    assert_eq!(trim_bytes(b"\0\0 LIST \r\n\0\0\0"), b"LIST".to_vec());
    assert_eq!(trim_bytes(b"GET a b"), b"GET a b".to_vec());
    assert_eq!(trim_bytes(b"\0 \0"), Vec::<u8>::new());
    assert_eq!(trim_bytes(b""), Vec::<u8>::new());
}

#[test]
fn trim_keeps_padding_inside() {
    assert_eq!(trim_bytes(b" a\0 b "), b"a\0 b".to_vec());
}

#[test]
fn whitespace_and_padding_bytes() {
    for b in [9u8, 10, 11, 12, 13, 32] {
        assert!(is_space_byte(b));
        assert!(is_padding_byte(b));
    }
    assert!(!is_space_byte(0));
    assert!(is_padding_byte(0));
    assert!(!is_space_byte(b'a'));
    assert!(!is_padding_byte(b'a'));
    assert!(!is_space_byte(8));
    assert!(!is_space_byte(14));
}

#[test]
fn a_line_ends_at_the_first_line_feed() {
    assert_eq!(split_line(b"PUT a 3\nabc"), (7, 8));
    assert_eq!(split_line(b"LIST"), (4, 4));
    assert_eq!(split_line(b"\nrest"), (0, 1));
    assert_eq!(split_line(b""), (0, 0));
    assert_eq!(split_line(b"a\nb\nc"), (1, 2));
}

#[test]
fn prefixes_and_equality() {
    assert!(starts_with(b"PUTTER", b"PUT"));
    assert!(starts_with(b"PUT", b"PUT"));
    assert!(!starts_with(b"PU", b"PUT"));
    assert!(!starts_with(b"GET", b"PUT"));
    assert!(starts_with(b"x", b""));
    assert!(bytes_eq(b"abc", b"abc"));
    assert!(!bytes_eq(b"abc", b"abd"));
    assert!(!bytes_eq(b"abc", b"ab"));
}

#[test]
fn a_range_is_copied() {
    assert_eq!(copy_range(b"hello world", 6, 11), b"world".to_vec());
    assert_eq!(copy_range(b"hello", 2, 2), Vec::<u8>::new());
}

#[test]
fn sizes_are_read_as_decimal_numbers() {
    assert_eq!(parse_u64(b"0"), Some(0));
    assert_eq!(parse_u64(b"13"), Some(13));
    assert_eq!(parse_u64(b"007"), Some(7));
    assert_eq!(parse_u64(b"+5"), Some(5));
    assert_eq!(parse_u64(b"18446744073709551615"), Some(u64::MAX));
}

#[test]
fn what_is_no_size_is_refused() {
    assert_eq!(parse_u64(b""), None);
    assert_eq!(parse_u64(b"+"), None);
    assert_eq!(parse_u64(b"-1"), None);
    assert_eq!(parse_u64(b"12a"), None);
    assert_eq!(parse_u64(b"1 2"), None);
    assert_eq!(parse_u64(b"18446744073709551616"), None);
    assert_eq!(parse_u64(b"99999999999999999999999"), None);
}

#[test]
fn numbers_are_written_in_decimal() {
    assert_eq!(format_u64(0), b"0".to_vec());
    assert_eq!(format_u64(13), b"13".to_vec());
    assert_eq!(format_u64(1000), b"1000".to_vec());
    assert_eq!(format_u64(u64::MAX), b"18446744073709551615".to_vec());
}

#[test]
fn a_number_that_was_written_is_read_back() {
    for n in [0u64, 1, 9, 10, 99, 100, 8192, 4294967296, u64::MAX - 1, u64::MAX] {
        assert_eq!(parse_u64(&format_u64(n)), Some(n));
    }
}

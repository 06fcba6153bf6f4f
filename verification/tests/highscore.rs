use bloop::highscore::{format_high_score, initial_high_score, parse_high_score, push_decimal};

#[test]
fn a_plain_number_reads_as_itself() {
    assert_eq!(parse_high_score(b"42"), 42);
    assert_eq!(parse_high_score(b"0"), 0);
    assert_eq!(parse_high_score(b"4294967295"), u32::MAX);
}

#[test]
fn whitespace_around_the_number_is_skipped() {
    assert_eq!(parse_high_score(b" 42"), 42);
    assert_eq!(parse_high_score(b"42\n"), 42);
    assert_eq!(parse_high_score(b"\t\r\n 42 \x0b\x0c\n"), 42);
}

#[test]
fn whitespace_inside_the_number_is_an_error() {
    assert_eq!(parse_high_score(b"4 2"), 0);
    assert_eq!(parse_high_score(b"+ 42"), 0);
}

#[test]
fn a_plus_sign_is_let_through() {
    assert_eq!(parse_high_score(b"+7"), 7);
    assert_eq!(parse_high_score(b" +7 "), 7);
    assert_eq!(parse_high_score(b"++7"), 0);
    assert_eq!(parse_high_score(b"+"), 0);
}

#[test]
fn leading_zeros_are_let_through() {
    assert_eq!(parse_high_score(b"007"), 7);
    assert_eq!(parse_high_score(b"00000000000000000000042"), 42);
}

#[test]
fn what_is_no_number_reads_as_zero() {
    assert_eq!(parse_high_score(b""), 0);
    assert_eq!(parse_high_score(b"   "), 0);
    assert_eq!(parse_high_score(b"abc"), 0);
    assert_eq!(parse_high_score(b"-1"), 0);
    assert_eq!(parse_high_score(b"42x"), 0);
    assert_eq!(parse_high_score(b"4.2"), 0);
    assert_eq!(parse_high_score(b"4_2"), 0);
    assert_eq!(parse_high_score(&[0xff, 0xfe]), 0);
    assert_eq!(parse_high_score(&[0xc2, 0xa0, b'4', b'2']), 0);
}

#[test]
fn a_number_too_large_for_the_score_reads_as_zero() {
    assert_eq!(parse_high_score(b"4294967296"), 0);
    assert_eq!(parse_high_score(b"99999999999999999999999999999"), 0);
    assert_eq!(parse_high_score(b"42949672950"), 0);
}

#[test]
fn a_score_is_written_in_decimal_without_padding() {
    assert_eq!(format_high_score(0), b"0".to_vec());
    assert_eq!(format_high_score(7), b"7".to_vec());
    assert_eq!(format_high_score(42), b"42".to_vec());
    assert_eq!(format_high_score(1000), b"1000".to_vec());
    assert_eq!(format_high_score(u32::MAX), b"4294967295".to_vec());
}

#[test]
fn digits_are_appended_to_what_is_there() {
    let mut text = b"n=".to_vec();
    push_decimal(305, &mut text);
    assert_eq!(text, b"n=305".to_vec());
}

#[test]
fn reading_what_was_written_gives_the_score_back() {
    for score in [0u32, 1, 9, 10, 42, 99, 100, 65_535, 65_536, 999_999_999, 1_000_000_000, u32::MAX]
    {
        assert_eq!(parse_high_score(&format_high_score(score)), score);
    }
}

#[test]
fn what_is_written_matches_the_standard_decimal_form() {
    for score in [0u32, 5, 10, 42, 12_345, 4_000_000_000, u32::MAX] {
        assert_eq!(format_high_score(score), score.to_string().into_bytes());
    }
}

#[test]
fn a_store_that_cannot_be_had_starts_the_high_score_at_zero() {
    assert_eq!(initial_high_score(None), 0);
    assert_eq!(initial_high_score(Some(b"17")), 17);
    assert_eq!(initial_high_score(Some(b"seventeen")), 0);
}

use cheat::pattern::{find, parse_pattern, pattern_search, PatternError};

#[test]
fn parse_hex_and_wildcards() {
    let p = parse_pattern("48 8b ?? C4").unwrap();
    assert_eq!(p, vec![Some(0x48), Some(0x8B), None, Some(0xC4)]);
}

#[test]
fn parse_skips_runs_of_whitespace() {
    let p = parse_pattern("  48\t\t8B\n ?? \r\n").unwrap();
    assert_eq!(p, vec![Some(0x48), Some(0x8B), None]);
}

#[test]
fn parse_empty_text_gives_empty_pattern() {
    assert_eq!(parse_pattern("").unwrap(), Vec::<Option<u8>>::new());
    assert_eq!(parse_pattern("   ").unwrap(), Vec::<Option<u8>>::new());
}

#[test]
fn parse_single_digit_and_leading_zeros() {
    assert_eq!(parse_pattern("A 0FF 00").unwrap(), vec![Some(0x0A), Some(0xFF), Some(0x00)]);
}

#[test]
fn parse_reports_first_malformed_token() {
    assert_eq!(parse_pattern("48 ZZ 8B"), Err(PatternError::MalformedToken { index: 1 }));
    assert_eq!(parse_pattern("48 8B 1G ?X"), Err(PatternError::MalformedToken { index: 2 }));
}

#[test]
fn parse_rejects_partial_and_long_wildcards() {
    assert_eq!(parse_pattern("48 ?"), Err(PatternError::MalformedToken { index: 1 }));
    assert_eq!(parse_pattern("??? 48"), Err(PatternError::MalformedToken { index: 0 }));
    assert_eq!(parse_pattern("4?"), Err(PatternError::MalformedToken { index: 0 }));
}

#[test]
fn parse_rejects_values_above_a_byte() {
    assert_eq!(parse_pattern("100"), Err(PatternError::MalformedToken { index: 0 }));
    assert_eq!(parse_pattern("00 FFF"), Err(PatternError::MalformedToken { index: 1 }));
}

#[test]
fn find_returns_smallest_offset() {
    let buf = [1u8, 2, 1, 2, 1, 2];
    assert_eq!(find(&buf, &[Some(1), Some(2)]), Some(0));
    assert_eq!(find(&buf, &[Some(2), Some(1)]), Some(1));
}

#[test]
fn find_matches_at_the_last_window() {
    let buf = [0u8, 0, 5, 6];
    assert_eq!(find(&buf, &[Some(5), Some(6)]), Some(2));
    assert_eq!(find(&buf, &[Some(0), Some(0), Some(5), Some(6)]), Some(0));
}

#[test]
fn find_pattern_longer_than_buffer_is_absent() {
    let buf = [1u8, 2];
    assert_eq!(find(&buf, &[Some(1), Some(2), None]), None);
    assert_eq!(find(&[], &[None]), None);
}

#[test]
fn find_empty_pattern_matches_at_zero() {
    assert_eq!(find(&[9u8, 8, 7], &[]), Some(0));
    assert_eq!(find(&[], &[]), Some(0));
}

#[test]
fn find_all_wildcards_match_at_zero() {
    let buf = [0xDEu8, 0xAD, 0xBE, 0xEF];
    assert_eq!(find(&buf, &[None, None, None]), Some(0));
    assert_eq!(find(&buf, &[None, None, None, None]), Some(0));
    assert_eq!(find(&buf, &[None, None, None, None, None]), None);
}

#[test]
fn find_wildcard_skips_a_byte() {
    let buf = [7u8, 1, 9, 3, 1, 4, 3];
    assert_eq!(find(&buf, &[Some(1), None, Some(3)]), Some(1));
    assert_eq!(find(&buf, &[Some(1), Some(4), Some(3)]), Some(4));
    assert_eq!(find(&buf, &[Some(1), Some(5), Some(3)]), None);
}

#[test]
fn find_result_fits_in_buffer() {
    let buf = [3u8, 3, 3];
    let pat = [Some(3), Some(3)];
    let o = find(&buf, &pat).unwrap();
    assert!(o + pat.len() <= buf.len());
    assert_eq!(find(&buf, &[Some(3), Some(4)]), None);
}

fn signature_buffer() -> Vec<u8> {
    let mut buf: Vec<u8> = (0..256u32).map(|i| (i % 7) as u8).collect();
    let sig = [0x48u8, 0x8B, 0xC4, 0x4C, 0x89, 0x48, 0x20, 0x55];
    buf[128..136].copy_from_slice(&sig);
    buf
}

#[test]
fn end_to_end_signature_found_at_offset() {
    let buf = signature_buffer();
    assert_eq!(pattern_search(&buf, "48 8B C4 4C 89 48 20 55"), Ok(Some(128)));
}

#[test]
fn end_to_end_mutated_byte_breaks_match() {
    let mut buf = signature_buffer();
    buf[130] = 0x00;
    assert_eq!(pattern_search(&buf, "48 8B C4 4C 89 48 20 55"), Ok(None));
}

#[test]
fn end_to_end_wildcard_restores_match() {
    for v in [0x00u8, 0x11, 0xC4, 0xFF] {
        let mut buf = signature_buffer();
        buf[130] = v;
        assert_eq!(pattern_search(&buf, "48 8B ?? 4C 89 48 20 55"), Ok(Some(128)));
    }
}

#[test]
fn pattern_search_stops_on_malformed_pattern() {
    let buf = signature_buffer();
    assert_eq!(
        pattern_search(&buf, "48 8B XX 4C"),
        Err(PatternError::MalformedToken { index: 2 })
    );
}

use nucleotide_subsequence::matching::{bytes_equal, match_check};
use nucleotide_subsequence::occurrence::{push_found, MatchRecord};
use nucleotide_subsequence::WindowBuffer;

#[test]
fn equal_byte_strings_compare_equal() {
    assert!(bytes_equal(b"", b""));
    assert!(bytes_equal(b"ACGT", b"ACGT"));
    assert!(!bytes_equal(b"ACGT", b"ACGA"));
    assert!(!bytes_equal(b"ACGT", b"TCGT"));
    assert!(!bytes_equal(b"ACG", b"ACGT"));
    assert!(!bytes_equal(b"ACGT", b""));
}

#[test]
fn check_reports_the_match_with_the_context_between_the_offsets() {
    let buffer = WindowBuffer::initialize(3, 2, 3, b"xyzABuvw").unwrap();
    assert_eq!(
        match_check(&buffer, b"AB", 0, 3, 5, 8, 100),
        Some(MatchRecord { offset: 103, before: b"xyz".to_vec(), after: b"uvw".to_vec() })
    );
    assert_eq!(
        match_check(&buffer, b"AB", 2, 3, 5, 6, 0),
        Some(MatchRecord { offset: 3, before: b"z".to_vec(), after: b"u".to_vec() })
    );
    assert_eq!(
        match_check(&buffer, b"AB", 3, 3, 5, 5, 0),
        Some(MatchRecord { offset: 3, before: vec![], after: vec![] })
    );
}

#[test]
fn check_reports_nothing_where_the_target_does_not_stand() {
    let buffer = WindowBuffer::initialize(3, 2, 3, b"xyzABuvw").unwrap();
    assert_eq!(match_check(&buffer, b"AB", 0, 2, 4, 8, 0), None);
    assert_eq!(match_check(&buffer, b"AB", 0, 4, 6, 8, 0), None);
    assert_eq!(match_check(&buffer, b"AC", 0, 3, 5, 8, 0), None);
    assert_eq!(match_check(&buffer, b"ABu", 0, 3, 5, 8, 0), None);
}

#[test]
fn only_records_that_exist_are_appended() {
    let mut found = Vec::new();
    push_found(&mut found, None);
    assert!(found.is_empty());
    push_found(&mut found, Some(MatchRecord { offset: 1, before: vec![], after: vec![2] }));
    push_found(&mut found, None);
    push_found(&mut found, Some(MatchRecord { offset: 5, before: vec![3], after: vec![] }));
    assert_eq!(
        found,
        vec![
            MatchRecord { offset: 1, before: vec![], after: vec![2] },
            MatchRecord { offset: 5, before: vec![3], after: vec![] },
        ]
    );
}

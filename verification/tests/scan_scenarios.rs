use nucleotide_subsequence::config::Config;
use nucleotide_subsequence::error::{ConfigurationFault, ScanError};
use nucleotide_subsequence::occurrence::MatchRecord;
use nucleotide_subsequence::scan::scan;

fn config(target: &[u8], before_context: usize, after_context: usize) -> Config {
    Config {
        file: None,
        verbosity: 0,
        raw_target: target.to_vec(),
        before_context,
        after_context,
        pad: true,
    }
}

fn record(offset: u64, before: &[u8], after: &[u8]) -> MatchRecord {
    MatchRecord { offset, before: before.to_vec(), after: after.to_vec() }
}

#[test]
fn match_in_the_middle_has_full_context() {
    let found = scan(&config(b"AB", 2, 2), b"XXABYY");
    assert_eq!(found, Ok(vec![record(2, b"XX", b"YY")]));
}

#[test]
fn match_that_is_the_whole_stream_has_no_context() {
    let found = scan(&config(b"AB", 3, 0), b"AB");
    assert_eq!(found, Ok(vec![record(0, b"", b"")]));
}

#[test]
fn absent_target_reports_nothing() {
    let found = scan(&config(b"Z", 0, 0), b"ABC");
    assert_eq!(found, Ok(vec![]));
}

#[test]
fn empty_target_is_a_configuration_error() {
    let found = scan(&config(b"", 1, 1), b"ABC");
    assert_eq!(found, Err(ScanError::ConfigurationError(ConfigurationFault::EmptyTarget)));
}

#[test]
fn stream_shorter_than_target_is_insufficient() {
    let found = scan(&config(b"ABC", 1, 1), b"AB");
    assert_eq!(found, Err(ScanError::InsufficientInput));
    let found = scan(&config(b"A", 0, 0), b"");
    assert_eq!(found, Err(ScanError::InsufficientInput));
}

#[test]
fn long_stream_reports_every_match_in_order() {
    let stream = b"ABxxxABABxxxxxxxxxxAB";
    let found = scan(&config(b"AB", 3, 4), stream);
    assert_eq!(
        found,
        Ok(vec![
            record(0, b"", b"xxxA"),
            record(5, b"xxx", b"ABxx"),
            record(7, b"xAB", b"xxxx"),
            record(19, b"xxx", b""),
        ])
    );
}

#[test]
fn overlapping_matches_are_all_reported() {
    let found = scan(&config(b"AA", 1, 1), b"AAAA");
    assert_eq!(
        found,
        Ok(vec![record(0, b"", b"A"), record(1, b"A", b"A"), record(2, b"A", b"")])
    );
}

fn reference(target: &[u8], before: usize, after: usize, stream: &[u8]) -> Vec<MatchRecord> {
    let mut found = Vec::new();
    if stream.len() < target.len() {
        return found;
    }
    for position in 0..=(stream.len() - target.len()) {
        if &stream[position..position + target.len()] == target {
            let start = position.saturating_sub(before);
            let end = (position + target.len() + after).min(stream.len());
            found.push(record(
                position as u64,
                &stream[start..position],
                &stream[position + target.len()..end],
            ));
        }
    }
    found
}

#[test]
fn scan_agrees_with_a_direct_search_on_small_streams() {
    let alphabet = [b'A', b'B'];
    for length in 1..=9usize {
        for code in 0..(1usize << length) {
            let stream: Vec<u8> = (0..length).map(|i| alphabet[(code >> i) & 1]).collect();
            for target in [&b"A"[..], &b"AB"[..], &b"ABA"[..], &b"BB"[..]] {
                if target.len() > stream.len() {
                    continue;
                }
                for before in 0..4usize {
                    for after in 0..4usize {
                        let found = scan(&config(target, before, after), &stream);
                        assert_eq!(found, Ok(reference(target, before, after, &stream)));
                    }
                }
            }
        }
    }
}

use nucleotide_subsequence::config::Config;
use nucleotide_subsequence::driver::ScanDriver;
use nucleotide_subsequence::error::{ConfigurationFault, ScanError};
use nucleotide_subsequence::occurrence::MatchRecord;
use nucleotide_subsequence::scan::scan;

fn config(target: &[u8], before_context: usize, after_context: usize) -> Config {
    Config {
        file: None,
        verbosity: 0,
        raw_target: target.to_vec(),
        before_context,
        after_context,
        pad: true,
    }
}

fn record(offset: u64, before: &[u8], after: &[u8]) -> MatchRecord {
    MatchRecord { offset, before: before.to_vec(), after: after.to_vec() }
}

fn stream_through_driver(config: &Config, stream: &[u8]) -> Result<Vec<MatchRecord>, ScanError> {
    let capacity = config.before_context + config.target().len() + config.after_context;
    let first = capacity.min(stream.len());
    let (mut driver, mut found) = ScanDriver::start(config, &stream[..first])?;
    for byte in &stream[first..] {
        assert!(driver.can_advance());
        if let Some(record) = driver.advance(*byte) {
            found.push(record);
        }
    }
    found.extend(driver.finish());
    Ok(found)
}

#[test]
fn ramp_up_reports_matches_in_the_first_chunk() {
    let (driver, found) = ScanDriver::start(&config(b"AB", 2, 1), b"ABABx").unwrap();
    assert_eq!(found, vec![record(0, b"", b"A"), record(2, b"AB", b"x")]);
    assert_eq!(driver.finish(), vec![]);
}

#[test]
fn ramp_up_stops_where_the_first_chunk_ends() {
    let (driver, found) = ScanDriver::start(&config(b"AB", 3, 2), b"xABAB").unwrap();
    assert_eq!(found, vec![record(1, b"x", b"AB")]);
    assert_eq!(driver.finish(), vec![record(3, b"xAB", b"")]);
}

#[test]
fn steady_state_reports_one_position_for_each_byte() {
    let (mut driver, found) = ScanDriver::start(&config(b"AB", 1, 1), b"xxxx").unwrap();
    assert_eq!(found, vec![]);
    assert_eq!(driver.advance(b'A'), None);
    assert_eq!(driver.advance(b'B'), None);
    assert_eq!(driver.advance(b'y'), Some(record(4, b"x", b"y")));
    assert_eq!(driver.advance(b'A'), None);
    assert_eq!(driver.advance(b'B'), None);
    assert_eq!(driver.finish(), vec![record(7, b"y", b"")]);
}

#[test]
fn ramp_down_shrinks_the_context_after_the_match() {
    let (mut driver, found) = ScanDriver::start(&config(b"AB", 1, 3), b"xxxxxx").unwrap();
    assert_eq!(found, vec![]);
    for byte in b"ABAB" {
        assert_eq!(driver.advance(*byte), None);
    }
    assert_eq!(driver.finish(), vec![record(6, b"x", b"AB"), record(8, b"B", b"")]);
}

#[test]
fn start_refuses_an_empty_target() {
    assert!(matches!(
        ScanDriver::start(&config(b"", 2, 2), b"ABCD"),
        Err(ScanError::ConfigurationError(ConfigurationFault::EmptyTarget))
    ));
}

#[test]
fn start_refuses_a_chunk_shorter_than_the_target() {
    assert!(matches!(
        ScanDriver::start(&config(b"ABC", 2, 2), b"AB"),
        Err(ScanError::InsufficientInput)
    ));
}

#[test]
fn driver_and_scan_report_the_same() {
    let stream = b"GATTACAGATTACATTAGATTTACAGATTACA";
    for before in 0..5usize {
        for after in 0..5usize {
            for target in [&b"GATTACA"[..], &b"TTA"[..], &b"A"[..], &b"TT"[..]] {
                let settings = config(target, before, after);
                assert_eq!(stream_through_driver(&settings, stream), scan(&settings, stream));
            }
        }
    }
}

#[test]
fn scanning_twice_gives_the_same_records() {
    let settings = config(b"TTA", 2, 3);
    let stream = b"GATTACAGATTACATTAGATTTACAGATTACA";
    assert_eq!(scan(&settings, stream), scan(&settings, stream));
}

#[test]
fn context_is_cut_at_both_ends_of_the_stream() {
    let stream = b"ABxxABxxAB";
    let found = scan(&config(b"AB", 3, 3), stream).unwrap();
    assert_eq!(found.len(), 3);
    for record in &found {
        let offset = record.offset as usize;
        assert_eq!(&stream[offset..offset + 2], b"AB");
        assert_eq!(record.before.len(), 3.min(offset));
        assert_eq!(record.after.len(), 3.min(stream.len() - offset - 2));
    }
    assert!(found[0].before.is_empty());
    assert!(found[2].after.is_empty());
}

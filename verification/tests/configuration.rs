use nucleotide_subsequence::config::{Arguments, Config};
use nucleotide_subsequence::error::{ConfigurationFault, ScanError};
use nucleotide_subsequence::number::{is_number, number_verdict, parse_size};
use nucleotide_subsequence::occurrence::MatchRecord;
use nucleotide_subsequence::scan::scan;

fn arguments(target: &str) -> Arguments {
    Arguments {
        verbosity: 0,
        file: None,
        target_string: Some(target.to_string()),
        target_file: None,
        context: None,
        before_context: None,
        after_context: None,
        no_pad: false,
    }
}

fn fault(arguments: Arguments) -> ConfigurationFault {
    match Config::from_args(arguments) {
        Err(ScanError::ConfigurationError(fault)) => fault,
        _ => panic!("the arguments were not refused as a configuration error"),
    }
}

#[test]
fn positive_decimal_numbers_are_accepted() {
    assert_eq!(is_number("1".to_string()), Ok(()));
    assert_eq!(is_number("42".to_string()), Ok(()));
    assert_eq!(is_number("1000000".to_string()), Ok(()));
}

#[test]
fn anything_else_is_not_numeric() {
    for text in ["", "0", "007", "-1", "+1", "1.5", "12a", "a12", " 12", "12 ", "12\n", "١٢"] {
        assert_eq!(is_number(text.to_string()), Err("The value is not numeric".to_string()));
    }
}

#[test]
fn verdict_follows_the_match() {
    assert_eq!(number_verdict(Some(true)), Ok(()));
    assert_eq!(number_verdict(Some(false)), Err("The value is not numeric".to_string()));
    assert_eq!(number_verdict(None), Err("The value is not numeric".to_string()));
}

#[test]
fn sizes_are_read_as_decimal() {
    assert_eq!(parse_size("0"), Some(0));
    assert_eq!(parse_size("7"), Some(7));
    assert_eq!(parse_size("1234567890"), Some(1234567890));
    assert_eq!(parse_size("007"), Some(7));
    assert_eq!(parse_size(&usize::MAX.to_string()), Some(usize::MAX));
}

#[test]
fn what_is_no_size_is_not_read() {
    assert_eq!(parse_size(""), None);
    assert_eq!(parse_size("12a"), None);
    assert_eq!(parse_size("-3"), None);
    assert_eq!(parse_size("+3"), None);
    assert_eq!(parse_size("99999999999999999999999999"), None);
    let mut too_large = usize::MAX.to_string();
    too_large.push('0');
    assert_eq!(parse_size(&too_large), None);
}

#[test]
fn defaults_are_no_context_and_padding() {
    let config = Config::from_args(arguments("ACGT")).unwrap();
    assert_eq!(config.target(), b"ACGT");
    assert_eq!(config.before_context, 0);
    assert_eq!(config.after_context, 0);
    assert!(config.pad);
    assert_eq!(config.verbosity, 0);
    assert_eq!(config.file, None);
}

#[test]
fn context_sets_both_sides() {
    let mut given = arguments("ACGT");
    given.context = Some("12".to_string());
    given.no_pad = true;
    given.verbosity = 2;
    given.file = Some("genome.txt".to_string());
    let config = Config::from_args(given).unwrap();
    assert_eq!(config.before_context, 12);
    assert_eq!(config.after_context, 12);
    assert!(!config.pad);
    assert_eq!(config.verbosity, 2);
    assert_eq!(config.file, Some("genome.txt".to_string()));
}

#[test]
fn before_and_after_are_set_independently() {
    let mut given = arguments("ACGT");
    given.before_context = Some("3".to_string());
    let config = Config::from_args(given).unwrap();
    assert_eq!((config.before_context, config.after_context), (3, 0));
    let mut given = arguments("ACGT");
    given.after_context = Some("5".to_string());
    let config = Config::from_args(given).unwrap();
    assert_eq!((config.before_context, config.after_context), (0, 5));
    let mut given = arguments("ACGT");
    given.before_context = Some("3".to_string());
    given.after_context = Some("5".to_string());
    let config = Config::from_args(given).unwrap();
    assert_eq!((config.before_context, config.after_context), (3, 5));
}

#[test]
fn target_file_contents_are_taken_as_they_are() {
    let mut given = arguments("");
    given.target_string = None;
    given.target_file = Some(vec![0, 159, 146, 150, 10]);
    let config = Config::from_args(given).unwrap();
    assert_eq!(config.target(), &[0, 159, 146, 150, 10]);
}

#[test]
fn literal_target_is_taken_as_utf8() {
    let config = Config::from_args(arguments("é")).unwrap();
    assert_eq!(config.target(), &[0xc3, 0xa9]);
}

#[test]
fn target_is_required_once() {
    let mut given = arguments("A");
    given.target_string = None;
    assert_eq!(fault(given), ConfigurationFault::MissingTarget);
    let mut given = arguments("A");
    given.target_file = Some(b"A".to_vec());
    assert_eq!(fault(given), ConfigurationFault::ConflictingTargets);
}

#[test]
fn context_excludes_one_sided_sizes() {
    let mut given = arguments("A");
    given.context = Some("2".to_string());
    given.before_context = Some("2".to_string());
    assert_eq!(fault(given), ConfigurationFault::ConflictingContexts);
    let mut given = arguments("A");
    given.context = Some("2".to_string());
    given.after_context = Some("2".to_string());
    assert_eq!(fault(given), ConfigurationFault::ConflictingContexts);
}

#[test]
fn sizes_that_are_not_numeric_are_refused() {
    for text in ["0", "-1", "x", "", "1e3"] {
        let mut given = arguments("A");
        given.context = Some(text.to_string());
        assert_eq!(fault(given), ConfigurationFault::InvalidNumber);
        let mut given = arguments("A");
        given.before_context = Some(text.to_string());
        assert_eq!(fault(given), ConfigurationFault::InvalidNumber);
        let mut given = arguments("A");
        given.after_context = Some(text.to_string());
        assert_eq!(fault(given), ConfigurationFault::InvalidNumber);
    }
}

#[test]
fn sizes_beyond_the_machine_are_refused() {
    let mut given = arguments("A");
    given.after_context = Some("340282366920938463463374607431768211456".to_string());
    assert_eq!(fault(given), ConfigurationFault::InvalidNumber);
}

#[test]
fn build_resolves_without_validating() {
    let mut given = arguments("A");
    given.before_context = Some("007".to_string());
    let config = Config::build(given).ok().unwrap();
    assert_eq!(config.before_context, 7);
    let mut given = arguments("A");
    given.target_file = Some(b"B".to_vec());
    let config = Config::build(given).ok().unwrap();
    assert_eq!(config.target(), b"A");
    let mut given = arguments("A");
    given.target_string = None;
    assert!(matches!(
        Config::build(given),
        Err(ScanError::ConfigurationError(ConfigurationFault::MissingTarget))
    ));
    let mut given = arguments("A");
    given.context = Some("many".to_string());
    assert!(matches!(
        Config::build(given),
        Err(ScanError::ConfigurationError(ConfigurationFault::InvalidNumber))
    ));
}

#[test]
fn empty_target_string_is_refused_before_the_scan() {
    let config = Config::from_args(arguments("")).unwrap();
    assert_eq!(
        scan(&config, b"ABC"),
        Err(ScanError::ConfigurationError(ConfigurationFault::EmptyTarget))
    );
}

#[test]
fn resolved_configuration_drives_the_scan() {
    let mut given = arguments("AB");
    given.before_context = Some("2".to_string());
    given.after_context = Some("2".to_string());
    let config = Config::from_args(given).unwrap();
    assert_eq!(
        scan(&config, b"XXABYY"),
        Ok(vec![MatchRecord { offset: 2, before: b"XX".to_vec(), after: b"YY".to_vec() }])
    );
    let mut given = arguments("AB");
    given.before_context = Some("3".to_string());
    let config = Config::from_args(given).unwrap();
    assert_eq!(
        scan(&config, b"AB"),
        Ok(vec![MatchRecord { offset: 0, before: vec![], after: vec![] }])
    );
    let config = Config::from_args(arguments("Z")).unwrap();
    assert_eq!(scan(&config, b"ABC"), Ok(vec![]));
}

#[test]
fn errors_read_as_text() {
    assert_eq!(
        ScanError::ConfigurationError(ConfigurationFault::EmptyTarget).message(),
        "Target string cannot be empty"
    );
    assert_eq!(ScanError::InsufficientInput.message(), "stream too small to match on");
    assert_eq!(ScanError::IoError("No such file".to_string()).message(), "No such file");
    assert_eq!(ConfigurationFault::InvalidNumber.message(), "The value is not numeric");
    assert!(!ConfigurationFault::MissingTarget.message().is_empty());
    assert!(!ConfigurationFault::ConflictingTargets.message().is_empty());
    assert!(!ConfigurationFault::ConflictingContexts.message().is_empty());
}

use ulog::common::{CaptureLogger, ChainLogger, MinLevelLogger, StubLogger};
use ulog::{ULog, ULogData, ULogLevel};

#[test]
fn test_level_order() {
    let levels = ULogLevel::all_levels();

    for i in 0..(levels.len() - 1) {
        for j in (i + 1)..levels.len() {
            assert!(levels[i] < levels[j]);
        }
    }
}

#[test]
fn test_ulog_macro() {
    let mut logger = CaptureLogger::new();

    let log_data = ULogData::new(ULogLevel::Debug, 1, "logging.rs");
    logger.log_begin(&log_data);
    logger.log_str(&log_data, "Hello");
    logger.log_end(&log_data);

    let log_data = ULogData::new(ULogLevel::Error, 2, "logging.rs");
    logger.log_begin(&log_data);
    logger.log_str(&log_data, "world");
    logger.log_format(&log_data, "value", "32");
    logger.log_end(&log_data);

    assert_eq!(
        &logger.records[..],
        &[
            (ULogLevel::Debug, String::from("__BEGIN__")),
            (ULogLevel::Debug, String::from("Hello")),
            (ULogLevel::Debug, String::from("__END__")),
            (ULogLevel::Error, String::from("__BEGIN__")),
            (ULogLevel::Error, String::from("world")),
            (ULogLevel::Error, String::from("value => 32")),
            (ULogLevel::Error, String::from("__END__")),
        ]
    );
}

#[test]
fn test_info_macro() {
    let mut logger = CaptureLogger::new();

    let log_data = ULogData::new(ULogLevel::Info, 1, "logging.rs");
    logger.log_begin(&log_data);
    logger.log_str(&log_data, "Hello");
    logger.log_end(&log_data);

    let log_data = ULogData::new(ULogLevel::Info, 2, "logging.rs");
    logger.log_begin(&log_data);
    logger.log_str(&log_data, "world");
    logger.log_format(&log_data, "value", "32");
    logger.log_end(&log_data);

    assert_eq!(
        &logger.records[..],
        &[
            (ULogLevel::Info, String::from("__BEGIN__")),
            (ULogLevel::Info, String::from("Hello")),
            (ULogLevel::Info, String::from("__END__")),
            (ULogLevel::Info, String::from("__BEGIN__")),
            (ULogLevel::Info, String::from("world")),
            (ULogLevel::Info, String::from("value => 32")),
            (ULogLevel::Info, String::from("__END__")),
        ]
    );
}

#[test]
fn test_min_level() {
    let mut logger = MinLevelLogger::new(CaptureLogger::new(), ULogLevel::Warning);

    for level in ULogLevel::all_levels() {
        let log_data = ULogData::new(level, 1, "logging.rs");
        logger.log_begin(&log_data);
        logger.log_str(&log_data, "Hello");
        logger.log_end(&log_data);
    }

    assert!(logger
        .into_inner()
        .records
        .iter()
        .all(|log| log.0 >= ULogLevel::Warning));
}

#[test]
fn level_long_names() {
    assert_eq!(ULogLevel::Debug.as_str(), "DEBUG");
    assert_eq!(ULogLevel::Info.as_str(), "INFO");
    assert_eq!(ULogLevel::Warning.as_str(), "WARN");
    assert_eq!(ULogLevel::Error.as_str(), "ERROR");
    assert_eq!(ULogLevel::Critical.as_str(), "CRITICAL");
}

#[test]
fn level_short_names() {
    assert_eq!(ULogLevel::Debug.as_short_str(), "DBG");
    assert_eq!(ULogLevel::Info.as_short_str(), "INF");
    assert_eq!(ULogLevel::Warning.as_short_str(), "WRN");
    assert_eq!(ULogLevel::Error.as_short_str(), "ERR");
    assert_eq!(ULogLevel::Critical.as_short_str(), "CRT");
    for level in ULogLevel::all_levels() {
        assert_eq!(level.as_short_str().len(), 3);
    }
}

#[test]
fn all_levels_canonical() {
    assert_eq!(
        ULogLevel::all_levels(),
        [
            ULogLevel::Debug,
            ULogLevel::Info,
            ULogLevel::Warning,
            ULogLevel::Error,
            ULogLevel::Critical,
        ]
    );
}

#[test]
fn at_least_follows_order() {
    assert!(ULogLevel::Error.at_least(&ULogLevel::Warning));
    assert!(ULogLevel::Warning.at_least(&ULogLevel::Warning));
    assert!(!ULogLevel::Debug.at_least(&ULogLevel::Warning));
    assert!(!ULogLevel::Info.at_least(&ULogLevel::Warning));
    assert!(ULogLevel::Critical.at_least(&ULogLevel::Debug));
}

#[test]
fn log_data_fields() {
    let data = ULogData::new(ULogLevel::Warning, 17, "logging.rs");
    assert_eq!(data.level, ULogLevel::Warning);
    assert_eq!(data.line, 17);
    assert_eq!(data.file, "logging.rs");
}

#[test]
fn stub_ignores_everything() {
    let mut logger = StubLogger;
    let log_data = ULogData::new(ULogLevel::Critical, 3, "logging.rs");
    logger.log_begin(&log_data);
    logger.log_str(&log_data, "nothing to see");
    logger.log_format(&log_data, "key", "value");
    logger.log_end(&log_data);
}

#[test]
fn chain_sends_to_both_in_order() {
    let mut logger = ChainLogger::new(CaptureLogger::new(), CaptureLogger::new());

    let log_data = ULogData::new(ULogLevel::Warning, 4, "logging.rs");
    logger.log_begin(&log_data);
    logger.log_str(&log_data, "fan out");
    logger.log_format(&log_data, "key", "7");
    logger.log_end(&log_data);

    let (parent, current) = logger.into_inner();
    let expected = vec![
        (ULogLevel::Warning, String::from("__BEGIN__")),
        (ULogLevel::Warning, String::from("fan out")),
        (ULogLevel::Warning, String::from("key => 7")),
        (ULogLevel::Warning, String::from("__END__")),
    ];
    assert_eq!(parent.records, expected);
    assert_eq!(current.records, expected);
}

#[test]
fn chain_round_trip() {
    let mut a = CaptureLogger::new();
    let mut b = CaptureLogger::new();
    let data = ULogData::new(ULogLevel::Info, 5, "logging.rs");
    a.log_str(&data, "left");
    b.log_str(&data, "right");

    let (back_a, back_b) = ChainLogger::new(a, b).into_inner();
    assert_eq!(back_a.records, vec![(ULogLevel::Info, String::from("left"))]);
    assert_eq!(back_b.records, vec![(ULogLevel::Info, String::from("right"))]);
}

#[test]
fn min_level_round_trip() {
    let mut inner = CaptureLogger::new();
    let data = ULogData::new(ULogLevel::Error, 6, "logging.rs");
    inner.log_str(&data, "kept");

    let filtered = MinLevelLogger::new(inner, ULogLevel::Warning);
    assert_eq!(filtered.min_level(), ULogLevel::Warning);
    let back = filtered.into_inner();
    assert_eq!(back.records, vec![(ULogLevel::Error, String::from("kept"))]);
}

#[test]
fn filter_keeps_exactly_at_or_above_threshold() {
    let mut logger = MinLevelLogger::new(CaptureLogger::new(), ULogLevel::Warning);

    for level in ULogLevel::all_levels() {
        let log_data = ULogData::new(level, 7, "logging.rs");
        logger.log_begin(&log_data);
        logger.log_str(&log_data, level.as_str());
        logger.log_end(&log_data);
    }

    assert_eq!(
        logger.into_inner().records,
        vec![
            (ULogLevel::Warning, String::from("__BEGIN__")),
            (ULogLevel::Warning, String::from("WARN")),
            (ULogLevel::Warning, String::from("__END__")),
            (ULogLevel::Error, String::from("__BEGIN__")),
            (ULogLevel::Error, String::from("ERROR")),
            (ULogLevel::Error, String::from("__END__")),
            (ULogLevel::Critical, String::from("__BEGIN__")),
            (ULogLevel::Critical, String::from("CRITICAL")),
            (ULogLevel::Critical, String::from("__END__")),
        ]
    );
}

#[test]
fn capture_starts_empty() {
    let logger = CaptureLogger::default();
    assert!(logger.records.is_empty());
}

#[test]
fn nested_composition() {
    let loud = CaptureLogger::new();
    let quiet = MinLevelLogger::new(CaptureLogger::new(), ULogLevel::Error);
    let mut logger = ChainLogger::new(loud, quiet);

    let warn_data = ULogData::new(ULogLevel::Warning, 8, "logging.rs");
    logger.log_begin(&warn_data);
    logger.log_str(&warn_data, "only loud");
    logger.log_end(&warn_data);

    let err_data = ULogData::new(ULogLevel::Error, 9, "logging.rs");
    logger.log_begin(&err_data);
    logger.log_str(&err_data, "both");
    logger.log_end(&err_data);

    let (loud, quiet) = logger.into_inner();
    assert_eq!(
        loud.records,
        vec![
            (ULogLevel::Warning, String::from("__BEGIN__")),
            (ULogLevel::Warning, String::from("only loud")),
            (ULogLevel::Warning, String::from("__END__")),
            (ULogLevel::Error, String::from("__BEGIN__")),
            (ULogLevel::Error, String::from("both")),
            (ULogLevel::Error, String::from("__END__")),
        ]
    );
    assert_eq!(
        quiet.into_inner().records,
        vec![
            (ULogLevel::Error, String::from("__BEGIN__")),
            (ULogLevel::Error, String::from("both")),
            (ULogLevel::Error, String::from("__END__")),
        ]
    );
}

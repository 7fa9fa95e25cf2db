use swww_daemon::logger::{make_logger, Level, LevelFilter, Logger};

const LEVELS: [Level; 5] =
    [Level::Error, Level::Warn, Level::Info, Level::Debug, Level::Trace];

#[test]
fn quiet_logs_errors_only() {
    let logger = make_logger(true, false);
    assert_eq!(logger.level_filter, LevelFilter::Error);
    let enabled: Vec<Level> = LEVELS.into_iter().filter(|l| logger.enabled(*l)).collect();
    assert_eq!(enabled, vec![Level::Error]);
}

#[test]
fn loud_logs_all_but_traces() {
    let logger = make_logger(false, true);
    assert!(logger.is_term);
    let enabled: Vec<Level> = LEVELS.into_iter().filter(|l| logger.enabled(*l)).collect();
    assert_eq!(enabled, vec![Level::Error, Level::Warn, Level::Info, Level::Debug]);
}

#[test]
fn plain_lines() {
    let logger = make_logger(false, false);
    assert_eq!(
        logger.log(Level::Info, 0, "Goodbye!"),
        Some("         0ms [INFO]  Goodbye!\n".to_string())
    );
    assert_eq!(
        logger.log(Level::Error, 1205, "no"),
        Some("      1205ms [ERROR] no\n".to_string())
    );
    assert_eq!(
        logger.log(Level::Warn, 9_876_543_210, ""),
        Some("9876543210ms [WARN]  \n".to_string())
    );
    assert_eq!(
        logger.log(Level::Debug, 123_456_789_012, "x"),
        Some("123456789012ms [DEBUG] x\n".to_string())
    );
}

#[test]
fn lines_match_the_formatting_of_std() {
    let logger = Logger { level_filter: LevelFilter::Trace, is_term: false };
    for time in [0u128, 9, 10, 99, 100, 4_294_967_296, u64::MAX as u128, u128::MAX] {
        assert_eq!(
            logger.log(Level::Trace, time, "message"),
            Some(format!("{time:>10}ms [DEBUG] message\n"))
        );
    }
}

#[test]
fn colored_lines() {
    let logger = make_logger(false, true);
    assert_eq!(
        logger.log(Level::Error, 7, "m"),
        Some("         7ms \x1b[31m[ERROR]\x1b[0m m\n".to_string())
    );
    assert_eq!(
        logger.log(Level::Warn, 7, "m"),
        Some("         7ms \x1b[33m[WARN]\x1b[0m  m\n".to_string())
    );
    assert_eq!(
        logger.log(Level::Info, 7, "m"),
        Some("         7ms \x1b[32m[INFO]\x1b[0m  m\n".to_string())
    );
    assert_eq!(
        logger.log(Level::Debug, 7, "m"),
        Some("         7ms \x1b[36m[DEBUG]\x1b[0m m\n".to_string())
    );
}

#[test]
fn silent_levels_have_no_line() {
    assert_eq!(make_logger(true, false).log(Level::Warn, 1, "m"), None);
    assert_eq!(make_logger(false, false).log(Level::Trace, 1, "m"), None);
    let off = Logger { level_filter: LevelFilter::Off, is_term: false };
    assert_eq!(off.log(Level::Error, 1, "m"), None);
}

#[test]
fn a_terminal_shows_the_same_marks() {
    let color = Logger { level_filter: LevelFilter::Trace, is_term: true };
    let plain = Logger { level_filter: LevelFilter::Trace, is_term: false };
    for level in LEVELS {
        let line = color.log(level, 0, "").unwrap();
        assert_eq!(line.len(), 10 + "ms ".len() + 16 + " \n".len());
        let mut shown = String::new();
        let mut escaped = false;
        for c in line.chars() {
            if escaped {
                escaped = c != 'm';
            } else if c == '\x1b' {
                escaped = true;
            } else {
                shown.push(c);
            }
        }
        assert_eq!(Some(shown), plain.log(level, 0, ""));
    }
}

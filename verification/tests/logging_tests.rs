use katas::logging::{
    format_line, lowest, Application, ConsoleLogger, InMemoryLogger, LogLevel, LogMessage, Logger,
    MultiLogger,
};

fn is_stamp(text: &str) -> bool {
    let shape = "dddd-dd-dd dd:dd:dd";
    text.len() == shape.len()
        && text.chars().zip(shape.chars()).all(|(c, s)| if s == 'd' { c.is_ascii_digit() } else { c == s })
}

#[test]
fn test_in_memory_logger() {
    let mut logger = InMemoryLogger::new(LogLevel::Info);
    logger.log(&LogMessage::new(LogLevel::Debug, "Debug message")); // Should not be logged
    logger.log(&LogMessage::new(LogLevel::Info, "Info message"));
    logger.log(&LogMessage::new(LogLevel::Error, "Error message"));

    let messages = logger.get_messages();
    assert_eq!(messages.len(), 2);
}

#[test]
fn test_application_with_logger() {
    let logger = Box::new(InMemoryLogger::new(LogLevel::Info));
    let mut app = Application::new(logger);

    app.run();
}

#[test]
fn application_refuses_empty_data() {
    let mut app = Application::new(Box::new(InMemoryLogger::new(LogLevel::Debug)));
    assert_eq!(app.process_data(""), Err("Empty data".to_string()));
    assert_eq!(app.process_data("payload"), Ok(()));
}

#[test]
fn line_has_time_level_and_text() {
    assert_eq!(
        format_line("2024-01-31 09:05:00", LogLevel::Warning, "disk is full"),
        "[2024-01-31 09:05:00] WARN - disk is full"
    );
    let line = LogMessage::new(LogLevel::Error, "it broke").format();
    assert!(line.starts_with('['));
    assert!(line.ends_with("] ERROR - it broke"));
    assert!(is_stamp(&line[1..line.len() - "] ERROR - it broke".len()]));
}

#[test]
fn levels_in_order() {
    let levels = [LogLevel::Debug, LogLevel::Info, LogLevel::Warning, LogLevel::Error];
    let names = ["DEBUG", "INFO", "WARN", "ERROR"];
    for (i, level) in levels.iter().enumerate() {
        assert_eq!(level.rank() as usize, i);
        assert_eq!(level.name(), names[i]);
        for (j, other) in levels.iter().enumerate() {
            assert_eq!(level.at_least(*other), i >= j);
            assert_eq!(level >= other, i >= j);
        }
    }
}

#[test]
fn in_memory_logger_keeps_lines_in_order() {
    let mut logger = InMemoryLogger::new(LogLevel::Warning);
    assert_eq!(logger.minimum_level(), LogLevel::Warning);
    logger.log(&LogMessage::new(LogLevel::Warning, "first"));
    logger.log(&LogMessage::new(LogLevel::Info, "dropped"));
    logger.log(&LogMessage::new(LogLevel::Error, "second"));
    let lines = logger.get_messages();
    assert_eq!(lines.len(), 2);
    assert!(lines[0].ends_with("] WARN - first"));
    assert!(lines[1].ends_with("] ERROR - second"));
}

#[test]
fn console_logger_decides_what_is_written() {
    let logger = ConsoleLogger::new(LogLevel::Info);
    assert_eq!(logger.minimum_level(), LogLevel::Info);
    assert_eq!(logger.line_for(&LogMessage::new(LogLevel::Debug, "quiet")), None);
    let line = logger.line_for(&LogMessage::new(LogLevel::Info, "loud")).unwrap();
    assert!(line.ends_with("] INFO - loud"));
}

#[test]
fn multi_logger_hands_on_and_takes_the_lowest_level() {
    let mut multi: MultiLogger<InMemoryLogger> = MultiLogger::new();
    assert_eq!(multi.minimum_level(), LogLevel::Error);
    multi.add_logger(InMemoryLogger::new(LogLevel::Warning));
    assert_eq!(multi.minimum_level(), LogLevel::Warning);
    multi.add_logger(InMemoryLogger::new(LogLevel::Debug));
    multi.add_logger(InMemoryLogger::new(LogLevel::Info));
    assert_eq!(multi.minimum_level(), LogLevel::Debug);
    multi.log(&LogMessage::new(LogLevel::Info, "to all"));
}

#[test]
fn lowest_of_some_levels() {
    assert_eq!(lowest(&[]), LogLevel::Error);
    assert_eq!(lowest(&[LogLevel::Error, LogLevel::Warning]), LogLevel::Warning);
    assert_eq!(
        lowest(&[LogLevel::Info, LogLevel::Debug, LogLevel::Warning, LogLevel::Debug]),
        LogLevel::Debug
    );
    assert_eq!(lowest(&[LogLevel::Error]), LogLevel::Error);
}

#[test]
fn multi_logger_inside_a_multi_logger() {
    let mut inner: MultiLogger<InMemoryLogger> = MultiLogger::new();
    inner.add_logger(InMemoryLogger::new(LogLevel::Info));
    let mut outer: MultiLogger<MultiLogger<InMemoryLogger>> = MultiLogger::new();
    outer.add_logger(inner);
    outer.add_logger(MultiLogger::new());
    assert_eq!(outer.minimum_level(), LogLevel::Info);
    let mut app = Application::new(Box::new(outer));
    app.run();
    assert_eq!(app.process_data("x"), Ok(()));
}

//! Messages with a level and a time, and loggers that keep the ones at or
//! above their own level.

use vstd::prelude::*;

use crate::text::texts;

verus! {

/// How grave a message is, from the least to the most.
#[derive(Debug, Clone, Copy, PartialEq, Eq, PartialOrd, Ord, Structural)]
pub enum LogLevel {
    Debug,
    Info,
    Warning,
    Error,
}

/// The place of a level in the order of levels.
pub open spec fn level_rank(level: LogLevel) -> int {
    match level {
        LogLevel::Debug => 0,
        LogLevel::Info => 1,
        LogLevel::Warning => 2,
        LogLevel::Error => 3,
    }
}

/// The name under which a level is written.
pub open spec fn level_name(level: LogLevel) -> Seq<char> {
    match level {
        LogLevel::Debug => "DEBUG"@,
        LogLevel::Info => "INFO"@,
        LogLevel::Warning => "WARN"@,
        LogLevel::Error => "ERROR"@,
    }
}

/// The lower of two levels.
pub open spec fn lower_level(a: LogLevel, b: LogLevel) -> LogLevel {
    if level_rank(b) < level_rank(a) {
        b
    } else {
        a
    }
}

/// The lowest of `levels`, and `Error` where there is none.
pub open spec fn lowest_level(levels: Seq<LogLevel>) -> LogLevel
    decreases levels.len(),
{
    if levels.len() == 0 {
        LogLevel::Error
    } else {
        lower_level(lowest_level(levels.drop_last()), levels.last())
    }
}

/// The line of a message: the time in brackets, the level's name, and the
/// text.
pub open spec fn log_line(stamp: Seq<char>, level: LogLevel, text: Seq<char>) -> Seq<char> {
    "["@ + stamp + "] "@ + level_name(level) + " - "@ + text
}

/// Whether `line` is the line of a message with this level and text, at
/// some time.
pub open spec fn is_line_of(line: Seq<char>, level: LogLevel, text: Seq<char>) -> bool {
    exists|stamp: Seq<char>| line == log_line(stamp, level, text)
}

/// What is handed to a logger with a message: its level and its text.
/// The time of the message is the clock's affair.
pub ghost struct Note {
    pub level: LogLevel,
    pub text: Seq<char>,
}

impl LogLevel {
    /// The place of the level in the order of levels.
    pub fn rank(&self) -> (rank: u8)
        ensures
            rank == level_rank(*self),
    {
        match self {
            LogLevel::Debug => 0,
            LogLevel::Info => 1,
            LogLevel::Warning => 2,
            LogLevel::Error => 3,
        }
    }

    /// Whether the level is `minimum` or graver.
    pub fn at_least(&self, minimum: LogLevel) -> (reached: bool)
        ensures
            reached == (level_rank(*self) >= level_rank(minimum)),
    {
        self.rank() >= minimum.rank()
    }

    /// The name under which the level is written.
    pub fn name(&self) -> (name: &'static str)
        ensures
            name@ == level_name(*self),
    {
        match self {
            LogLevel::Debug => "DEBUG",
            LogLevel::Info => "INFO",
            LogLevel::Warning => "WARN",
            LogLevel::Error => "ERROR",
        }
    }
}

/// A date and a time of day, without a time zone, as `chrono` keeps them.
#[verifier::external_type_specification]
#[verifier::external_body]
pub struct ExNaiveDateTime(chrono::NaiveDateTime);

/// `chrono::Local::now` and `DateTime::naive_local`: the date and the time
/// of day that the local clock shows at the call. Nothing is claimed of
/// them: they are different at every call. (`naive_local` gives up only on
/// times at the very ends of what `chrono` can hold, far from any present.)
#[verifier::external_body]
fn local_now() -> (now: chrono::NaiveDateTime) {
    chrono::Local::now().naive_local()
}

/// `NaiveDateTime::format` of `chrono`, with year, month, day, hour, minute
/// and second, as in `2024-01-31 09:05:00`. Nothing is claimed of the text.
#[verifier::external_body]
fn stamp_of(at: &chrono::NaiveDateTime) -> (stamp: String) {
    at.format("%Y-%m-%d %H:%M:%S").to_string()
}

/// The line of a message with the time written as `stamp`.
pub fn format_line(stamp: &str, level: LogLevel, text: &str) -> (line: String)
    ensures
        line@ == log_line(stamp@, level, text@),
{
    let mut line = String::from_str("[");
    line.append(stamp);
    line.append("] ");
    line.append(level.name());
    line.append(" - ");
    line.append(text);
    line
}

/// A message, with its level and the local time at which it was made.
pub struct LogMessage {
    level: LogLevel,
    message: String,
    timestamp: chrono::NaiveDateTime,
}

impl LogMessage {
    /// The level of the message.
    pub closed spec fn level(&self) -> LogLevel {
        self.level
    }

    /// The text of the message.
    pub closed spec fn text(&self) -> Seq<char> {
        self.message@
    }

    /// What the message hands to a logger.
    pub open spec fn note(&self) -> Note {
        Note { level: self.level(), text: self.text() }
    }

    /// A message made now.
    pub fn new(level: LogLevel, message: &str) -> (made: Self)
        ensures
            made.level() == level,
            made.text() == message@,
    {
        LogMessage { level, message: String::from_str(message), timestamp: local_now() }
    }

    /// The line of the message.
    pub fn format(&self) -> (line: String)
        ensures
            is_line_of(line@, self.level(), self.text()),
    {
        let stamp = stamp_of(&self.timestamp);
        format_line(stamp.as_str(), self.level, self.message.as_str())
    }

    /// Whether a logger with the level `minimum` takes the message.
    pub fn reaches(&self, minimum: LogLevel) -> (reached: bool)
        ensures
            reached == (level_rank(self.level()) >= level_rank(minimum)),
    {
        self.level.at_least(minimum)
    }
}

/// Something that takes messages, and says from which level on. What a
/// logger does with a message, and which level it names, is its own
/// affair: the trait asks nothing of it.
pub trait Logger: Send + Sync {
    /// Hands a message to the logger.
    fn log(&mut self, message: &LogMessage);

    /// The level below which the logger takes nothing.
    fn minimum_level(&self) -> LogLevel;
}

/// A logger for the console. It decides what is written; the writing is
/// the caller's.
pub struct ConsoleLogger {
    min_level: LogLevel,
}

impl ConsoleLogger {
    /// The level below which the logger writes nothing.
    pub closed spec fn threshold(&self) -> LogLevel {
        self.min_level
    }

    pub fn new(min_level: LogLevel) -> (logger: Self)
        ensures
            logger.threshold() == min_level,
    {
        ConsoleLogger { min_level }
    }

    pub fn minimum_level(&self) -> (level: LogLevel)
        ensures
            level == self.threshold(),
    {
        self.min_level
    }

    /// The line to write for `message`; none where the message is below
    /// the logger's level.
    pub fn line_for(&self, message: &LogMessage) -> (line: Option<String>)
        ensures
            match line {
                Some(line) => level_rank(message.level()) >= level_rank(self.threshold())
                    && is_line_of(line@, message.level(), message.text()),
                None => level_rank(message.level()) < level_rank(self.threshold()),
            },
    {
        if message.reaches(self.min_level) {
            Some(message.format())
        } else {
            None
        }
    }
}

/// A logger that keeps its lines in memory.
pub struct InMemoryLogger {
    min_level: LogLevel,
    messages: Vec<String>,
}

impl InMemoryLogger {
    /// The level below which the logger keeps nothing.
    pub closed spec fn threshold(&self) -> LogLevel {
        self.min_level
    }

    /// The lines kept, oldest first.
    pub closed spec fn lines(&self) -> Seq<Seq<char>> {
        texts(self.messages@)
    }

    pub fn new(min_level: LogLevel) -> (logger: Self)
        ensures
            logger.threshold() == min_level,
            logger.lines() == Seq::<Seq<char>>::empty(),
    {
        let logger = InMemoryLogger { min_level, messages: Vec::new() };
        assert(logger.lines() == Seq::<Seq<char>>::empty());
        logger
    }

    /// A copy of the lines kept, oldest first.
    pub fn get_messages(&self) -> (messages: Vec<String>)
        ensures
            texts(messages@) == self.lines(),
    {
        let mut messages: Vec<String> = Vec::new();
        let mut i: usize = 0;
        while i < self.messages.len()
            invariant
                i <= self.messages@.len(),
                texts(messages@) == texts(self.messages@).take(i as int),
            decreases self.messages@.len() - i,
        {
            let ghost before = messages@;
            let line = self.messages[i].clone();
            messages.push(line);
            assert(texts(messages@) == texts(before).push(line@));
            assert(texts(self.messages@).take(i + 1) == texts(self.messages@).take(i as int).push(
                self.messages@[i as int]@,
            ));
            i += 1;
        }
        assert(texts(self.messages@).take(i as int) == texts(self.messages@));
        messages
    }
}

impl Logger for InMemoryLogger {
    /// Keeps the line of the message, if the message reaches the logger's
    /// level.
    fn log(&mut self, message: &LogMessage)
        ensures
            final(self).threshold() == old(self).threshold(),
            if level_rank(message.level()) >= level_rank(old(self).threshold()) {
                &&& final(self).lines().len() == old(self).lines().len() + 1
                &&& final(self).lines().drop_last() == old(self).lines()
                &&& is_line_of(final(self).lines().last(), message.level(), message.text())
            } else {
                final(self).lines() == old(self).lines()
            },
    {
        if message.reaches(self.min_level) {
            let line = message.format();
            self.messages.push(line);
            assert(texts(self.messages@) == texts(old(self).messages@).push(line@));
            assert(texts(self.messages@).drop_last() == texts(old(self).messages@));
        }
    }

    fn minimum_level(&self) -> (level: LogLevel)
        ensures
            level == self.threshold(),
    {
        self.min_level
    }
}

/// Whether `levels` are levels that the loggers of a list may name, one
/// for each and in order.
pub open spec fn named_by<L: Logger>(levels: Seq<LogLevel>, loggers: Seq<L>) -> bool {
    &&& levels.len() == loggers.len()
    &&& forall|i: int|
        0 <= i < loggers.len() ==> call_ensures(
            L::minimum_level,
            (&#[trigger] loggers[i],),
            levels[i],
        )
}

/// The lowest of `levels`, and `Error` where there is none.
pub fn lowest(levels: &[LogLevel]) -> (level: LogLevel)
    ensures
        level == lowest_level(levels@),
{
    let mut level = LogLevel::Error;
    let mut i: usize = 0;
    assert(levels@.take(0) == Seq::<LogLevel>::empty());
    while i < levels.len()
        invariant
            i <= levels@.len(),
            level == lowest_level(levels@.take(i as int)),
        decreases levels@.len() - i,
    {
        assert(levels@.take(i + 1).drop_last() == levels@.take(i as int));
        if levels[i].rank() < level.rank() {
            level = levels[i];
        }
        i += 1;
    }
    assert(levels@.take(i as int) == levels@);
    level
}

/// What each of some loggers has been handed, once `note` is handed to all
/// of them.
pub open spec fn each_with(handed: Seq<Seq<Note>>, note: Note) -> Seq<Seq<Note>> {
    handed.map_values(|notes: Seq<Note>| notes.push(note))
}

/// Several loggers of one kind as one: a message goes to each of them.
pub struct MultiLogger<L: Logger> {
    /// Each logger, with what it has been handed here.
    loggers: Vec<(L, Ghost<Seq<Note>>)>,
}

impl<L: Logger> MultiLogger<L> {
    /// The loggers, in the order in which they were added.
    pub closed spec fn loggers(&self) -> Seq<L> {
        self.loggers@.map_values(|entry: (L, Ghost<Seq<Note>>)| entry.0)
    }

    /// What this logger has handed to each of its loggers since that one
    /// was added, oldest first; in the order of the loggers.
    pub closed spec fn handed(&self) -> Seq<Seq<Note>> {
        self.loggers@.map_values(|entry: (L, Ghost<Seq<Note>>)| entry.1@)
    }

    pub fn new() -> (logger: Self)
        ensures
            logger.loggers() == Seq::<L>::empty(),
            logger.handed() == Seq::<Seq<Note>>::empty(),
    {
        let logger = MultiLogger { loggers: Vec::new() };
        assert(logger.loggers() == Seq::<L>::empty());
        assert(logger.handed() == Seq::<Seq<Note>>::empty());
        logger
    }

    /// Adds a logger, to which nothing has been handed yet.
    pub fn add_logger(&mut self, logger: L)
        ensures
            final(self).loggers() == old(self).loggers().push(logger),
            final(self).handed() == old(self).handed().push(Seq::<Note>::empty()),
    {
        self.loggers.push((logger, Ghost(Seq::empty())));
        assert(self.loggers() == old(self).loggers().push(logger));
        assert(self.handed() == old(self).handed().push(Seq::<Note>::empty()));
    }
}

impl<L: Logger> Logger for MultiLogger<L> {
    /// Hands the message to every logger, in the order in which they were
    /// added. What each of them makes of it is its own affair.
    fn log(&mut self, message: &LogMessage)
        ensures
            final(self).loggers().len() == old(self).loggers().len(),
            final(self).handed() == each_with(old(self).handed(), message.note()),
    {
        let mut i: usize = 0;
        while i < self.loggers.len()
            invariant
                i <= self.loggers@.len(),
                self.loggers@.len() == old(self).loggers@.len(),
                forall|k: int|
                    0 <= k < i ==> (#[trigger] self.loggers@[k]).1@ == old(self).loggers@[k].1@.push(
                        message.note(),
                    ),
                forall|k: int|
                    i <= k < self.loggers@.len() ==> (#[trigger] self.loggers@[k]).1@
                        == old(self).loggers@[k].1@,
            decreases self.loggers@.len() - i,
        {
            let entry = &mut self.loggers[i];
            entry.0.log(message);
            entry.1 = Ghost(entry.1@.push(message.note()));
            i += 1;
        }
        assert(self.handed() =~= each_with(old(self).handed(), message.note()));
    }

    /// The lowest of the levels that the loggers name, and `Error` where
    /// there is no logger.
    fn minimum_level(&self) -> (level: LogLevel)
        ensures
            exists|levels: Seq<LogLevel>|
                named_by(levels, self.loggers()) && level == lowest_level(levels),
    {
        let mut levels: Vec<LogLevel> = Vec::new();
        let mut i: usize = 0;
        while i < self.loggers.len()
            invariant
                i <= self.loggers@.len(),
                named_by(levels@, self.loggers().take(i as int)),
            decreases self.loggers@.len() - i,
        {
            let own = self.loggers[i].0.minimum_level();
            assert(self.loggers()[i as int] == self.loggers@[i as int].0);
            levels.push(own);
            i += 1;
        }
        assert(self.loggers().take(i as int) == self.loggers());
        lowest(levels.as_slice())
    }
}

/// The message for data that is empty.
pub open spec fn empty_data_message() -> Seq<char> {
    "Empty data"@
}

/// The text with which a run begins.
pub open spec fn started_text() -> Seq<char> {
    "Application started"@
}

/// The text with which a run ends.
pub open spec fn finished_text() -> Seq<char> {
    "Application finished"@
}

/// The text that announces `data`.
pub open spec fn processing_text(data: Seq<char>) -> Seq<char> {
    "Processing: "@ + data
}

/// The text for data that was refused.
pub open spec fn refused_text() -> Seq<char> {
    "Empty data received"@
}

/// The text for data that was taken in.
pub open spec fn processed_text() -> Seq<char> {
    "Data processed successfully"@
}

/// An application that reports what it does to the logger it was given.
pub struct Application {
    logger: Box<dyn Logger>,
    /// What has been handed to the logger, oldest first.
    handed: Ghost<Seq<Note>>,
}

impl Application {
    /// What the application has handed to its logger, oldest first.
    pub closed spec fn handed(&self) -> Seq<Note> {
        self.handed@
    }

    /// An application that reports to `logger`, and has not reported yet.
    pub fn new(logger: Box<dyn Logger>) -> (app: Self)
        ensures
            app.handed() == Seq::<Note>::empty(),
    {
        Application { logger, handed: Ghost(Seq::empty()) }
    }

    /// Hands a message with this level and text to the logger.
    fn report(&mut self, level: LogLevel, text: &str)
        ensures
            final(self).handed() == old(self).handed().push((Note { level, text: text@ })),
    {
        let message = LogMessage::new(level, text);
        self.logger.log(&message);
        self.handed = Ghost(self.handed@.push(message.note()));
    }

    /// Reports the start and the end of a run.
    pub fn run(&mut self)
        ensures
            final(self).handed() == old(self).handed().push(
                (Note { level: LogLevel::Info, text: started_text() }),
            ).push((Note { level: LogLevel::Info, text: finished_text() })),
    {
        self.report(LogLevel::Info, "Application started");
        self.report(LogLevel::Info, "Application finished");
    }

    /// Takes `data` in, reporting each step; data that is empty is refused.
    pub fn process_data(&mut self, data: &str) -> (result: Result<(), String>)
        ensures
            match result {
                Ok(_) => data@.len() > 0 && final(self).handed() == old(self).handed().push(
                    (Note { level: LogLevel::Debug, text: processing_text(data@) }),
                ).push((Note { level: LogLevel::Info, text: processed_text() })),
                Err(message) => data@.len() == 0 && message@ == empty_data_message()
                    && final(self).handed() == old(self).handed().push(
                    (Note { level: LogLevel::Debug, text: processing_text(data@) }),
                ).push((Note { level: LogLevel::Error, text: refused_text() })),
            },
    {
        let mut note = String::from_str("Processing: ");
        note.append(data);
        self.report(LogLevel::Debug, note.as_str());
        if data.is_empty() {
            self.report(LogLevel::Error, "Empty data received");
            return Err(String::from_str("Empty data"));
        }
        self.report(LogLevel::Info, "Data processed successfully");
        Ok(())
    }
}

} // verus!

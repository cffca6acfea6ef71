//! The logger's rules: which records pass the level filter, how a level is
//! shown, and the calendar date of a Unix time.
use vstd::prelude::*;
use vstd::string::StringExecFns;

verus! {

/// The importance of a log record, most important first.
#[derive(Clone, Copy, Debug, PartialEq, Eq, Structural)]
pub enum Level {
    Error,
    Warn,
    Info,
    Debug,
    Trace,
}

/// The least important level a logger lets through, or `Off`.
#[derive(Clone, Copy, Debug, PartialEq, Eq, Structural)]
pub enum LevelFilter {
    Off,
    Error,
    Warn,
    Info,
    Debug,
    Trace,
}

impl Level {
    /// The padded name of the level.
    pub open spec fn label_text(self) -> Seq<char> {
        match self {
            Level::Error => "ERROR"@,
            Level::Warn => "WARN "@,
            Level::Info => "INFO "@,
            Level::Debug => "DEBUG"@,
            Level::Trace => "TRACE"@,
        }
    }

    /// The escape sequence of the level's color.
    pub open spec fn color_code(self) -> Seq<char> {
        match self {
            Level::Error => "\x1b[31m"@,
            Level::Warn => "\x1b[33m"@,
            Level::Info => "\x1b[36m"@,
            Level::Debug => "\x1b[35m"@,
            Level::Trace => "\x1b[m"@,
        }
    }

    /// Position of the level, 1 for `Error` up to 5 for `Trace`.
    pub open spec fn rank(self) -> int {
        match self {
            Level::Error => 1,
            Level::Warn => 2,
            Level::Info => 3,
            Level::Debug => 4,
            Level::Trace => 5,
        }
    }

    pub fn to_rank(self) -> (r: u8)
        ensures
            r == self.rank(),
    {
        match self {
            Level::Error => 1,
            Level::Warn => 2,
            Level::Info => 3,
            Level::Debug => 4,
            Level::Trace => 5,
        }
    }

    /// The name of the level, filled up with spaces to five characters.
    pub fn label(self) -> (r: &'static str)
        ensures
            r@ == self.label_text(),
    {
        match self {
            Level::Error => "ERROR",
            Level::Warn => "WARN ",
            Level::Info => "INFO ",
            Level::Debug => "DEBUG",
            Level::Trace => "TRACE",
        }
    }

    /// The escape sequence that switches the terminal to the level's color.
    pub fn color(self) -> (r: &'static str)
        ensures
            r@ == self.color_code(),
    {
        match self {
            Level::Error => "\x1b[31m",
            Level::Warn => "\x1b[33m",
            Level::Info => "\x1b[36m",
            Level::Debug => "\x1b[35m",
            Level::Trace => "\x1b[m",
        }
    }
}

impl LevelFilter {
    /// Position of the filter, 0 for `Off` up to 5 for `Trace`.
    pub open spec fn rank(self) -> int {
        match self {
            LevelFilter::Off => 0,
            LevelFilter::Error => 1,
            LevelFilter::Warn => 2,
            LevelFilter::Info => 3,
            LevelFilter::Debug => 4,
            LevelFilter::Trace => 5,
        }
    }

    pub fn to_rank(self) -> (r: u8)
        ensures
            r == self.rank(),
    {
        match self {
            LevelFilter::Off => 0,
            LevelFilter::Error => 1,
            LevelFilter::Warn => 2,
            LevelFilter::Info => 3,
            LevelFilter::Debug => 4,
            LevelFilter::Trace => 5,
        }
    }
}

/// The configuration of the logger.
pub struct Logger {
    level: LevelFilter,
    colors: bool,
    verbose: bool,
}

/// A logger as contracts see it.
pub struct LoggerView {
    pub level: LevelFilter,
    pub colors: bool,
    pub verbose: bool,
}

impl View for Logger {
    type V = LoggerView;

    closed spec fn view(&self) -> LoggerView {
        LoggerView { level: self.level, colors: self.colors, verbose: self.verbose }
    }
}

impl Logger {
    /// A logger that lets records up to `level` through, with colors, not
    /// verbose.
    pub fn new(level: LevelFilter) -> (r: Self)
        ensures
            r@ == (LoggerView { level, colors: true, verbose: false }),
    {
        Self { level, colors: true, verbose: false }
    }

    /// Switches colored level names on or off.
    pub fn with_colors(&mut self, colors: bool) -> (r: &mut Self)
        ensures
            r@ == (LoggerView { colors, ..old(self)@ }),
            *final(self) == *final(r),
    {
        self.colors = colors;
        self
    }

    /// Whether a record of the given level passes the filter.
    pub fn enabled(&self, level: Level) -> (r: bool)
        ensures
            r == (level.rank() <= self@.level.rank()),
    {
        level.to_rank() <= self.level.to_rank()
    }

    /// How a record's level is shown: its label, and with colors the
    /// level's color before it and the normal color after it.
    pub fn level_text(&self, level: Level) -> (r: String)
        ensures
            r@ == if self@.colors {
                level.color_code() + level.label_text() + Level::Trace.color_code()
            } else {
                level.label_text()
            },
    {
        if self.colors {
            level.color().to_owned().concat(level.label()).concat(Level::Trace.color())
        } else {
            level.label().to_owned()
        }
    }

    pub fn level(&self) -> (r: LevelFilter)
        ensures
            r == self@.level,
    {
        self.level
    }

    pub fn colors(&self) -> (r: bool)
        ensures
            r == self@.colors,
    {
        self.colors
    }
}

/// Whether detailed listings are logged.
pub fn verbose(logger: &Logger) -> (r: bool)
    ensures
        r == logger@.verbose,
{
    logger.verbose
}

/// Switches detailed listings on or off.
pub fn set_verbosity(logger: &mut Logger, val: bool)
    ensures
        final(logger)@ == (LoggerView { verbose: val, ..old(logger)@ }),
{
    logger.verbose = val;
}

/// Whether `year` is a leap year of the Gregorian calendar.
pub open spec fn leap(year: int) -> bool {
    year % 400 == 0 || (year % 4 == 0 && year % 100 != 0)
}

pub open spec fn days_in_year(year: int) -> int {
    if leap(year) {
        366
    } else {
        365
    }
}

/// Days in month `month` (1 to 12) of `year`.
pub open spec fn days_in_month(year: int, month: int) -> int {
    if month == 2 {
        if leap(year) {
            29
        } else {
            28
        }
    } else if month == 4 || month == 6 || month == 9 || month == 11 {
        30
    } else {
        31
    }
}

/// Days from the first day of 1970 to the first day of `year`.
pub open spec fn days_before_year(year: int) -> int
    decreases year,
{
    if year <= 1970 {
        0
    } else {
        days_before_year(year - 1) + days_in_year(year - 1)
    }
}

/// Days from the first day of `year` to the first day of its month
/// `month`.
pub open spec fn days_before_month(year: int, month: int) -> int
    decreases month,
{
    if month <= 1 {
        0
    } else {
        days_before_month(year, month - 1) + days_in_month(year, month - 1)
    }
}

/// The last Unix time whose date is computed.
pub const MAX_UNIX_SECONDS: u64 = 2_000_000_000_000;

/// A calendar date and time of day, in UTC.
#[derive(Clone, Copy, Debug, PartialEq, Eq, Structural)]
pub struct Timestamp {
    pub year: u16,
    pub month: u16,
    pub day: u16,
    pub hours: u8,
    pub minutes: u8,
    pub seconds: u8,
}

impl Timestamp {
    /// The fields name a day of the calendar and a time of that day.
    pub open spec fn valid(self) -> bool {
        &&& 1970 <= self.year
        &&& 1 <= self.month <= 12
        &&& 1 <= self.day <= days_in_month(self.year as int, self.month as int)
        &&& self.hours < 24
        &&& self.minutes < 60
        &&& self.seconds < 60
    }

    /// Seconds from the start of 1970 to this time.
    pub open spec fn unix_seconds(self) -> int {
        let days = days_before_year(self.year as int) + days_before_month(
            self.year as int,
            self.month as int,
        ) + (self.day - 1);
        ((days * 24 + self.hours) * 60 + self.minutes) * 60 + self.seconds
    }

    /// The date and time of day that lie `total_seconds` after the start
    /// of 1970.
    pub fn from_unix(total_seconds: u64) -> (r: Self)
        requires
            total_seconds <= MAX_UNIX_SECONDS,
        ensures
            r.valid(),
            r.unix_seconds() == total_seconds,
    {
        let total_minutes = total_seconds / 60;
        let total_hours = total_minutes / 60;
        let seconds = (total_seconds % 60) as u8;
        let minutes = (total_minutes % 60) as u8;
        let hours = (total_hours % 24) as u8;
        let total_days = total_hours / 24;
        let mut day: u64 = total_days;
        let mut year: u16 = 1970;
        loop
            invariant
                total_days <= 23_148_149,
                1970 <= year,
                days_before_year(year as int) + day == total_days,
                365 * (year - 1970) <= days_before_year(year as int),
            ensures
                day < days_in_year(year as int),
            decreases day,
        {
            if is_leap_year(year) {
                if day < 366 {
                    break ;
                }
                day -= 366;
            } else {
                if day < 365 {
                    break ;
                }
                day -= 365;
            }
            year += 1;
        }
        let ghost day_of_year = day as int;
        day += 1;
        let mut month: u16 = 0;
        proof {
            reveal_with_fuel(days_before_month, 14);
            assert(days_before_month(year as int, 13) == days_in_year(year as int));
        }
        while day > month_length(year, month + 1)
            invariant
                0 <= month <= 11,
                1 <= day,
                days_before_month(year as int, month + 1) + day == day_of_year + 1,
                day_of_year < days_in_year(year as int),
                days_before_month(year as int, 13) == days_in_year(year as int),
            decreases 12 - month,
        {
            proof {
                reveal_with_fuel(days_before_month, 14);
            }
            day -= month_length(year, month + 1);
            month += 1;
        }
        month += 1;
        let day = day as u16;
        Self { year, month, day, hours, minutes, seconds }
    }
}

/// Days in month `month` (1 to 12) of `year`.
pub fn month_length(year: u16, month: u16) -> (r: u64)
    requires
        1 <= month <= 12,
    ensures
        r == days_in_month(year as int, month as int),
{
    if month == 2 {
        if is_leap_year(year) {
            29
        } else {
            28
        }
    } else if month == 4 || month == 6 || month == 9 || month == 11 {
        30
    } else {
        31
    }
}

pub fn is_leap_year(year: u16) -> (r: bool)
    ensures
        r == leap(year as int),
{
    year % 400 == 0 || (year % 4 == 0 && year % 100 != 0)
}

} // verus!

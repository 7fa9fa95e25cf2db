//! What is logged, and how a line of the log looks.

use vstd::prelude::*;
use vstd::string::*;

verus! {

/// How grave a message is.
#[derive(Clone, Copy, Debug, PartialEq, Eq, Structural)]
pub enum Level {
    Error,
    Warn,
    Info,
    Debug,
    Trace,
}

/// Up to which level messages are logged.
#[derive(Clone, Copy, Debug, PartialEq, Eq, Structural)]
pub enum LevelFilter {
    Off,
    Error,
    Warn,
    Info,
    Debug,
    Trace,
}

impl Level {
    /// The graver a message, the lower its number.
    pub open spec fn spec_number(self) -> u8 {
        match self {
            Level::Error => 1,
            Level::Warn => 2,
            Level::Info => 3,
            Level::Debug => 4,
            Level::Trace => 5,
        }
    }

    /// The graver a message, the lower its number.
    fn number(&self) -> (r: u8)
        ensures
            r == self.spec_number(),
    {
        match self {
            Level::Error => 1,
            Level::Warn => 2,
            Level::Info => 3,
            Level::Debug => 4,
            Level::Trace => 5,
        }
    }
}

impl LevelFilter {
    /// The highest number of a level that passes.
    pub open spec fn spec_number(self) -> u8 {
        match self {
            LevelFilter::Off => 0,
            LevelFilter::Error => 1,
            LevelFilter::Warn => 2,
            LevelFilter::Info => 3,
            LevelFilter::Debug => 4,
            LevelFilter::Trace => 5,
        }
    }

    /// The highest number of a level that passes.
    fn number(&self) -> (r: u8)
        ensures
            r == self.spec_number(),
    {
        match self {
            LevelFilter::Off => 0,
            LevelFilter::Error => 1,
            LevelFilter::Warn => 2,
            LevelFilter::Info => 3,
            LevelFilter::Debug => 4,
            LevelFilter::Trace => 5,
        }
    }
}

/// The log of the daemon.
#[derive(Clone, Copy, Debug, PartialEq, Eq, Structural)]
pub struct Logger {
    pub level_filter: LevelFilter,
    /// Whether it is written to a terminal, which shows colors.
    pub is_term: bool,
}

/// The least number of characters that the time of a line takes.
pub const TIME_WIDTH: usize = 10;

/// The character for a digit.
pub open spec fn digit(d: nat) -> char {
    if d == 0 {
        '0'
    } else if d == 1 {
        '1'
    } else if d == 2 {
        '2'
    } else if d == 3 {
        '3'
    } else if d == 4 {
        '4'
    } else if d == 5 {
        '5'
    } else if d == 6 {
        '6'
    } else if d == 7 {
        '7'
    } else if d == 8 {
        '8'
    } else {
        '9'
    }
}

/// A number in decimal, without leading zeros.
pub open spec fn decimal(n: nat) -> Seq<char>
    decreases n,
{
    if n < 10 {
        seq![digit(n)]
    } else {
        decimal(n / 10).push(digit(n % 10))
    }
}

/// `s` filled up with spaces on the left to `width` characters.
pub open spec fn right_aligned(s: Seq<char>, width: nat) -> Seq<char> {
    Seq::new(
        if s.len() < width {
            (width - s.len()) as nat
        } else {
            0
        },
        |i: int| ' ',
    ) + s
}

/// How a level is marked on a line: in color on a terminal. Trace messages are marked as those
/// for debugging are.
pub open spec fn spec_tag(level: Level, is_term: bool) -> Seq<char> {
    if is_term {
        match level {
            Level::Error => "\x1b[31m[ERROR]\x1b[0m"@,
            Level::Warn => "\x1b[33m[WARN]\x1b[0m "@,
            Level::Info => "\x1b[32m[INFO]\x1b[0m "@,
            Level::Debug => "\x1b[36m[DEBUG]\x1b[0m"@,
            Level::Trace => "\x1b[36m[DEBUG]\x1b[0m"@,
        }
    } else {
        match level {
            Level::Error => "[ERROR]"@,
            Level::Warn => "[WARN] "@,
            Level::Info => "[INFO] "@,
            Level::Debug => "[DEBUG]"@,
            Level::Trace => "[DEBUG]"@,
        }
    }
}

/// A line of the log: the milliseconds since the start, the level, and the message.
pub open spec fn spec_line(
    level: Level,
    is_term: bool,
    millis: nat,
    msg: Seq<char>,
) -> Seq<char> {
    right_aligned(decimal(millis), TIME_WIDTH as nat) + "ms "@ + spec_tag(level, is_term) + " "@
        + msg + "\n"@
}

/// The log of a daemon that was asked to be quiet, or was not, and that writes to a terminal, or
/// does not.
pub fn make_logger(quiet: bool, is_term: bool) -> (logger: Logger)
    ensures
        logger == spec_make_logger(quiet, is_term),
        logger.is_term == is_term,
        logger.level_filter == if quiet {
            LevelFilter::Error
        } else {
            LevelFilter::Debug
        },
{
    Logger {
        level_filter: if quiet {
            LevelFilter::Error
        } else {
            LevelFilter::Debug
        },
        is_term,
    }
}

fn digit_str(d: u8) -> (r: &'static str)
    requires
        d < 10,
    ensures
        r@ == seq![digit(d as nat)],
{
    proof {
        reveal_strlit("0");
        reveal_strlit("1");
        reveal_strlit("2");
        reveal_strlit("3");
        reveal_strlit("4");
        reveal_strlit("5");
        reveal_strlit("6");
        reveal_strlit("7");
        reveal_strlit("8");
        reveal_strlit("9");
    }
    let r = match d {
        0 => "0",
        1 => "1",
        2 => "2",
        3 => "3",
        4 => "4",
        5 => "5",
        6 => "6",
        7 => "7",
        8 => "8",
        _ => "9",
    };
    assert(r@ =~= seq![digit(d as nat)]);
    r
}

/// A number in decimal.
fn to_decimal(n: u128) -> (r: String)
    ensures
        r@ == decimal(n as nat),
    decreases n,
{
    if n < 10 {
        digit_str(n as u8).to_owned()
    } else {
        let mut s = to_decimal(n / 10);
        s.append(digit_str((n % 10) as u8));
        s
    }
}

/// A line, if there is one.
pub open spec fn opt_line(line: Option<String>) -> Option<Seq<char>> {
    match line {
        Some(line) => Some(line@),
        None => None,
    }
}

/// The log of a daemon, by whether it is quiet and writes to a terminal.
pub open spec fn spec_make_logger(quiet: bool, is_term: bool) -> Logger {
    Logger {
        level_filter: if quiet {
            LevelFilter::Error
        } else {
            LevelFilter::Debug
        },
        is_term,
    }
}

impl Logger {
    /// The line to write for a message, where it is logged.
    pub open spec fn spec_log(self, level: Level, millis: nat, msg: Seq<char>) -> Option<
        Seq<char>,
    > {
        if level.spec_number() <= self.level_filter.spec_number() {
            Some(spec_line(level, self.is_term, millis, msg))
        } else {
            None
        }
    }

    /// Whether messages of this level are logged.
    pub fn enabled(&self, level: Level) -> (r: bool)
        ensures
            r == (level.spec_number() <= self.level_filter.spec_number()),
    {
        level.number() <= self.level_filter.number()
    }

    /// The line to write for a message, `millis` milliseconds after the start; `None` where the
    /// message is not logged.
    pub fn log(&self, level: Level, millis: u128, msg: &str) -> (r: Option<String>)
        ensures
            opt_line(r) == self.spec_log(level, millis as nat, msg@),
            match r {
                Some(line) => level.spec_number() <= self.level_filter.spec_number() && line@
                    == spec_line(level, self.is_term, millis as nat, msg@),
                None => level.spec_number() > self.level_filter.spec_number(),
            },
    {
        if !self.enabled(level) {
            return None;
        }
        let mut line = aligned_time(millis);
        line.append("ms ");
        line.append(self.tag(level));
        line.append(" ");
        line.append(msg);
        line.append("\n");
        Some(line)
    }

    /// How a level is marked on a line.
    fn tag(&self, level: Level) -> (r: &'static str)
        ensures
            r@ == spec_tag(level, self.is_term),
    {
        if self.is_term {
            match level {
                Level::Error => "\x1b[31m[ERROR]\x1b[0m",
                Level::Warn => "\x1b[33m[WARN]\x1b[0m ",
                Level::Info => "\x1b[32m[INFO]\x1b[0m ",
                Level::Debug | Level::Trace => "\x1b[36m[DEBUG]\x1b[0m",
            }
        } else {
            match level {
                Level::Error => "[ERROR]",
                Level::Warn => "[WARN] ",
                Level::Info => "[INFO] ",
                Level::Debug | Level::Trace => "[DEBUG]",
            }
        }
    }
}

/// The time of a line.
fn aligned_time(millis: u128) -> (r: String)
    ensures
        r@ == right_aligned(decimal(millis as nat), TIME_WIDTH as nat),
{
    let digits = to_decimal(millis);
    let len: usize = digits.as_str().unicode_len();
    let mut line = String::new();
    let mut filled: usize = 0;
    let missing: usize = if len < TIME_WIDTH {
        TIME_WIDTH - len
    } else {
        0
    };
    while filled < missing
        invariant
            filled <= missing,
            line@ == Seq::new(filled as nat, |i: int| ' '),
        decreases missing - filled,
    {
        line.append(" ");
        filled += 1;
        proof {
            reveal_strlit(" ");
            assert(line@ =~= Seq::new(filled as nat, |i: int| ' '));
        }
    }
    line.append(digits.as_str());
    line
}

/// A quiet log has the errors and nothing else; any other has all but what is traced.
pub proof fn law_what_is_logged(level: Level)
    ensures
        level.spec_number() <= LevelFilter::Error.spec_number() <==> level is Error,
        level.spec_number() <= LevelFilter::Debug.spec_number() <==> !(level is Trace),
{
}

/// What a terminal shows of `s`, and whether `s` ends within an escape sequence. Such a sequence
/// goes from the escape character to the next `m`, and is not shown.
pub open spec fn shown(s: Seq<char>) -> (Seq<char>, bool)
    decreases s.len(),
{
    if s.len() == 0 {
        (Seq::empty(), false)
    } else {
        let (before, escaped) = shown(s.drop_last());
        if escaped {
            (before, s.last() != 'm')
        } else if s.last() == '\x1b' {
            (before, true)
        } else {
            (before.push(s.last()), false)
        }
    }
}

proof fn lemma_shown_take(s: Seq<char>, k: int)
    requires
        0 <= k < s.len(),
    ensures
        shown(s.take(k + 1)) == ({
            let (before, escaped) = shown(s.take(k));
            if escaped {
                (before, s[k] != 'm')
            } else if s[k] == '\x1b' {
                (before, true)
            } else {
                (before.push(s[k]), false)
            }
        }),
{
    assert(s.take(k + 1).drop_last() =~= s.take(k));
}

/// A mark of sixteen characters, of which the escape sequences at its start and before `tail` are
/// not shown.
proof fn lemma_shown_mark(s: Seq<char>, tail: int, plain: Seq<char>)
    requires
        s.len() == 16,
        tail == 16 || tail == 15,
        s[0] == '\x1b',
        s[1] != 'm' && s[2] != 'm' && s[3] != 'm',
        s[4] == 'm',
        forall|k: int| 5 <= k < tail - 4 ==> (#[trigger] s[k]) != '\x1b',
        s[tail - 4] == '\x1b',
        s[tail - 3] != 'm' && s[tail - 2] != 'm',
        s[tail - 1] == 'm',
        tail == 15 ==> s[15] != '\x1b',
        plain == s.subrange(5, tail - 4) + s.skip(tail),
    ensures
        shown(s) == (plain, false),
{
    assert(s.take(0) =~= Seq::<char>::empty());
    lemma_shown_take(s, 0);
    lemma_shown_take(s, 1);
    lemma_shown_take(s, 2);
    lemma_shown_take(s, 3);
    lemma_shown_take(s, 4);
    assert(shown(s.take(5)) == (Seq::<char>::empty(), false));
    lemma_shown_take(s, 5);
    lemma_shown_take(s, 6);
    lemma_shown_take(s, 7);
    lemma_shown_take(s, 8);
    lemma_shown_take(s, 9);
    lemma_shown_take(s, 10);
    lemma_shown_take(s, 11);
    lemma_shown_take(s, 12);
    lemma_shown_take(s, 13);
    lemma_shown_take(s, 14);
    lemma_shown_take(s, 15);
    assert(s.take(16) =~= s);
    assert(shown(s).0 =~= plain);
}

/// Every mark has the same width, so that the messages start in one column: off a terminal it is
/// seven characters long. On a terminal it is sixteen characters long, of which exactly those are
/// shown that make the mark off a terminal, and no escape sequence is left open.
pub proof fn law_marks_align(level: Level)
    ensures
        spec_tag(level, false).len() == 7,
        spec_tag(level, true).len() == 16,
        shown(spec_tag(level, true)) == (spec_tag(level, false), false),
{
    reveal_strlit("[ERROR]");
    reveal_strlit("[WARN] ");
    reveal_strlit("[INFO] ");
    reveal_strlit("[DEBUG]");
    reveal_strlit("\x1b[31m[ERROR]\x1b[0m");
    reveal_strlit("\x1b[33m[WARN]\x1b[0m ");
    reveal_strlit("\x1b[32m[INFO]\x1b[0m ");
    reveal_strlit("\x1b[36m[DEBUG]\x1b[0m");
    let s = spec_tag(level, true);
    let tail: int = if level is Warn || level is Info {
        15
    } else {
        16
    };
    assert(spec_tag(level, false) =~= s.subrange(5, tail - 4) + s.skip(tail));
    lemma_shown_mark(s, tail, spec_tag(level, false));
}

/// The time takes at least its column, and is never cut.
pub proof fn law_time_is_aligned(millis: nat)
    ensures
        right_aligned(decimal(millis), TIME_WIDTH as nat).len() >= TIME_WIDTH,
        right_aligned(decimal(millis), TIME_WIDTH as nat).len() >= decimal(millis).len(),
{
}

/// Messages are logged up to the level of the filter, errors being the gravest and traces the least
/// grave, and not at all where the filter is off.
pub proof fn law_graver_messages_pass(level: Level)
    ensures
        level.spec_number() > LevelFilter::Off.spec_number(),
        level.spec_number() <= LevelFilter::Error.spec_number() <==> level is Error,
        level.spec_number() <= LevelFilter::Warn.spec_number() <==> level is Error || level is Warn,
        level.spec_number() <= LevelFilter::Info.spec_number() <==> level is Error || level is Warn
            || level is Info,
        level.spec_number() <= LevelFilter::Debug.spec_number() <==> !(level is Trace),
        level.spec_number() <= LevelFilter::Trace.spec_number(),
{
}

/// The number that decimal digits stand for.
pub open spec fn value(s: Seq<char>) -> int
    decreases s.len(),
{
    if s.len() == 0 {
        0
    } else {
        value(s.drop_last()) * 10 + (s.last() as int - '0' as int)
    }
}

/// A number in decimal reads back as the number. It is written in digits alone, and begins with a
/// zero only where it is zero.
pub proof fn law_decimals_read_back(n: nat)
    ensures
        value(decimal(n)) == n,
        decimal(n).len() >= 1,
        forall|i: int|
            0 <= i < decimal(n).len() ==> '0' as int <= (#[trigger] decimal(n)[i]) as int
                <= '9' as int,
        decimal(n)[0] == '0' ==> n == 0,
        n == 0 ==> decimal(n).len() == 1,
    decreases n,
{
    if n < 10 {
        assert(decimal(n).drop_last() =~= Seq::<char>::empty());
        assert(value(Seq::<char>::empty()) == 0);
    } else {
        law_decimals_read_back(n / 10);
        assert(decimal(n).drop_last() =~= decimal(n / 10));
        assert(decimal(n)[0] == decimal(n / 10)[0]);
    }
}

/// What is aligned to the right ends with what it is, and has nothing but spaces before that: as
/// many as it takes to fill the width.
pub proof fn law_alignment_adds_only_spaces(s: Seq<char>, width: nat)
    ensures
        ({
            let r = right_aligned(s, width);
            let added = r.len() - s.len();
            &&& r.len() == if s.len() < width {
                width
            } else {
                s.len()
            }
            &&& r.skip(added) == s
            &&& forall|i: int| 0 <= i < added ==> (#[trigger] r[i]) == ' '
        }),
{
    let r = right_aligned(s, width);
    assert(r.skip(r.len() - s.len()) =~= s);
}

/// A line is the time in milliseconds, at least ten characters wide, its unit, the mark of the
/// level and the message, with a space before each of the last two, and ends with a line break.
pub proof fn law_parts_of_a_line(level: Level, is_term: bool, millis: nat, msg: Seq<char>)
    ensures
        ({
            let line = spec_line(level, is_term, millis, msg);
            let time = right_aligned(decimal(millis), 10);
            let tag = spec_tag(level, is_term);
            let width = time.len() as int;
            &&& line.len() == width + 3 + tag.len() + 1 + msg.len() + 1
            &&& line.take(width) == time
            &&& line.subrange(width, width + 3) == seq!['m', 's', ' ']
            &&& line.subrange(width + 3, width + 3 + tag.len()) == tag
            &&& line[width + 3 + tag.len()] == ' '
            &&& line.subrange(width + 4 + tag.len(), line.len() - 1) == msg
            &&& line.last() == '\n'
        }),
{
    reveal_strlit("ms ");
    reveal_strlit(" ");
    reveal_strlit("\n");
    let line = spec_line(level, is_term, millis, msg);
    let time = right_aligned(decimal(millis), 10);
    let tag = spec_tag(level, is_term);
    let width = time.len() as int;
    assert(line.take(width) =~= time);
    assert(line.subrange(width, width + 3) =~= seq!['m', 's', ' ']);
    assert(line.subrange(width + 3, width + 3 + tag.len()) =~= tag);
    assert(line.subrange(width + 4 + tag.len(), line.len() - 1) =~= msg);
}

/// Which mark a level has: its name in brackets, with that of debugging for traces too. On a
/// terminal errors are red, warnings yellow, information green and the rest cyan.
pub proof fn law_marks_of_the_levels(level: Level)
    ensures
        level is Error ==> spec_tag(level, false) == "[ERROR]"@,
        level is Warn ==> spec_tag(level, false) == "[WARN] "@,
        level is Info ==> spec_tag(level, false) == "[INFO] "@,
        level is Debug || level is Trace ==> spec_tag(level, false) == "[DEBUG]"@,
        shown(spec_tag(level, true)) == (spec_tag(level, false), false),
        spec_tag(level, true)[0] == '\x1b' && spec_tag(level, true)[1] == '[',
        spec_tag(level, true)[2] == '3' && spec_tag(level, true)[4] == 'm',
        spec_tag(level, true)[3] == if level is Error {
            '1'
        } else if level is Warn {
            '3'
        } else if level is Info {
            '2'
        } else {
            '6'
        },
        spec_tag(level, true).subrange(
            if level is Warn || level is Info {
                11
            } else {
                12
            },
            if level is Warn || level is Info {
                15
            } else {
                16
            },
        ) == seq!['\x1b', '[', '0', 'm'],
{
    law_marks_align(level);
    reveal_strlit("\x1b[31m[ERROR]\x1b[0m");
    reveal_strlit("\x1b[33m[WARN]\x1b[0m ");
    reveal_strlit("\x1b[32m[INFO]\x1b[0m ");
    reveal_strlit("\x1b[36m[DEBUG]\x1b[0m");
    let s = spec_tag(level, true);
    if level is Warn || level is Info {
        assert(s.subrange(11, 15) =~= seq!['\x1b', '[', '0', 'm']);
    } else {
        assert(s.subrange(12, 16) =~= seq!['\x1b', '[', '0', 'm']);
    }
}

/// A quiet daemon logs errors and nothing else, and any other everything but traces. What is logged
/// is written as one line, which says the same however the log is filtered.
pub proof fn law_what_a_daemon_logs(
    quiet: bool,
    is_term: bool,
    level: Level,
    millis: nat,
    msg: Seq<char>,
)
    ensures
        ({
            let logger = spec_make_logger(quiet, is_term);
            let r = logger.spec_log(level, millis, msg);
            &&& logger.is_term == is_term
            &&& quiet ==> (r is Some <==> level is Error)
            &&& !quiet ==> (r is Some <==> !(level is Trace))
            &&& r matches Some(line) ==> line == spec_line(level, is_term, millis, msg)
        }),
{
}

} // verus!

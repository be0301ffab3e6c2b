//! The schedule's configuration text: one entry per line, `TIME = WALLPAPER`.

use crate::clock::ClockTime;
use crate::schedule::{sort_entries, stable_sort_of, views, EntryView, Schedule, ScheduleEntry};
use crate::text::{find_char, first_index, is_space, lemma_first_index, trim, trimmed};
use vstd::prelude::*;

verus! {

/// Why a line is no entry.
#[derive(Clone, Copy, Debug, PartialEq, Eq, Structural)]
pub enum EntryError {
    /// The line has no `=`.
    MissingSeparator,
    /// What stands before the `=` is no time of day.
    InvalidTime,
}

/// Why a configuration text gives no schedule.
#[derive(Clone, Copy, Debug, PartialEq, Eq, Structural)]
pub enum ConfigError {
    /// The line at this position, counted from zero, is no entry.
    Line { index: usize, cause: EntryError },
    /// The text holds no entry at all.
    Empty,
}

/// The error of `chrono::NaiveTime::parse_from_str`. Nothing is read from
/// it: a text that is no time is reported as `EntryError::InvalidTime`.
#[verifier::external_type_specification]
#[verifier::external_body]
pub struct ExTimeParseError(chrono::format::ParseError);

/// What `chrono::NaiveTime::parse_from_str` makes of `text` under `format`:
/// the seconds since midnight and the nanoseconds of the time it reads, or
/// nothing where it reads no time.
pub uninterp spec fn naive_time_parse(text: Seq<char>, format: Seq<char>) -> Option<(u32, u32)>;

/// Calls `chrono::NaiveTime::parse_from_str` and reads the seconds since
/// midnight and the nanoseconds off the time that it returns. The contract
/// gives the outcome its name and claims nothing else of it.
#[verifier::external_body]
fn parse_naive_time(text: &str, format: &str) -> (r: Result<(u32, u32), chrono::format::ParseError>)
    ensures
        r matches Ok(p) ==> naive_time_parse(text@, format@) == Some(p),
        r is Err ==> naive_time_parse(text@, format@) is None,
{
    match chrono::NaiveTime::parse_from_str(text, format) {
        Ok(t) => Ok((chrono::Timelike::num_seconds_from_midnight(&t), chrono::Timelike::nanosecond(&t))),
        Err(e) => Err(e),
    }
}

/// The time to take where the text was read as hours and minutes (`short`)
/// and as hours, minutes and seconds (`long`): the first reading wins.
pub open spec fn pick_time(short: Option<(u32, u32)>, long: Option<(u32, u32)>) -> Option<ClockTime> {
    match short {
        Some(p) => ClockTime::checked(p.0, p.1),
        None => match long {
            Some(q) => ClockTime::checked(q.0, q.1),
            None => None,
        },
    }
}

/// The time that `text` stands for, as `HH:MM` or else as `HH:MM:SS`.
pub open spec fn time_of(text: Seq<char>) -> Option<ClockTime> {
    pick_time(naive_time_parse(text, "%H:%M"@), naive_time_parse(text, "%H:%M:%S"@))
}

/// The two sides of the first `=` of a line, each without the white space
/// around it.
pub open spec fn sides_of(line: Seq<char>) -> Option<(Seq<char>, Seq<char>)> {
    let k = first_index(line, '=');
    if 0 <= k < line.len() {
        Some((trimmed(line.subrange(0, k)), trimmed(line.subrange(k + 1, line.len() as int))))
    } else {
        None
    }
}

/// The entry that a line stands for.
pub open spec fn entry_of(line: Seq<char>) -> Result<EntryView, EntryError> {
    match sides_of(line) {
        None => Err(EntryError::MissingSeparator),
        Some(sides) => match time_of(sides.0) {
            None => Err(EntryError::InvalidTime),
            Some(time) => Ok(EntryView { time, wallpaper: sides.1 }),
        },
    }
}

/// A line without the carriage return at its end, if it has one there.
pub open spec fn without_return(line: Seq<char>) -> Seq<char> {
    if line.len() > 0 && line.last() == '\r' {
        line.drop_last()
    } else {
        line
    }
}

/// The lines of a text. A line ends at a line feed, or at a carriage return
/// that stands directly before one. What follows the last line feed is a
/// line too, of which nothing is taken off.
pub open spec fn split_lines(s: Seq<char>) -> Seq<Seq<char>>
    decreases s.len(),
{
    let k = first_index(s, '\n');
    if 0 <= k < s.len() {
        seq![without_return(s.subrange(0, k))] + split_lines(s.subrange(k + 1, s.len() as int))
    } else {
        seq![s]
    }
}

/// A line that fails its text: it is not empty and is no entry. A line of
/// white space only is such a line.
pub open spec fn is_bad_line(line: Seq<char>) -> bool {
    line.len() > 0 && entry_of(line) is Err
}

/// The entries of the first `upto` lines, in the order of the lines, or the
/// first line among them that is neither empty nor an entry.
pub open spec fn entries_of(lines: Seq<Seq<char>>, upto: int) -> Result<Seq<EntryView>, ConfigError>
    decreases upto,
{
    if upto <= 0 {
        Ok(Seq::empty())
    } else {
        match entries_of(lines, upto - 1) {
            Err(e) => Err(e),
            Ok(found) => if lines[upto - 1].len() == 0 {
                Ok(found)
            } else {
                match entry_of(lines[upto - 1]) {
                    Err(cause) => Err(ConfigError::Line { index: (upto - 1) as usize, cause }),
                    Ok(entry) => Ok(found.push(entry)),
                }
            },
        }
    }
}

/// The entries that a configuration text declares, in the order of its lines.
pub open spec fn declared(text: Seq<char>) -> Result<Seq<EntryView>, ConfigError> {
    entries_of(split_lines(text), split_lines(text).len() as int)
}

/// Chooses between the two readings of a time.
pub fn select_time(short: Option<(u32, u32)>, long: Option<(u32, u32)>) -> (r: Option<ClockTime>)
    ensures
        r == pick_time(short, long),
{
    match short {
        Some(p) => ClockTime::from_parts(p.0, p.1),
        None => match long {
            Some(q) => ClockTime::from_parts(q.0, q.1),
            None => None,
        },
    }
}

/// Reads a time of day, written as `HH:MM` or as `HH:MM:SS`.
pub fn parse_time(text: &str) -> (r: Result<ClockTime, EntryError>)
    ensures
        r == match time_of(text@) {
            Some(t) => Ok::<ClockTime, EntryError>(t),
            None => Err(EntryError::InvalidTime),
        },
        r matches Ok(t) ==> t.wf(),
{
    let picked = match parse_naive_time(text, "%H:%M") {
        Ok(p) => select_time(Some(p), None),
        Err(_) => match parse_naive_time(text, "%H:%M:%S") {
            Ok(q) => select_time(None, Some(q)),
            Err(_) => select_time(None, None),
        },
    };
    match picked {
        Some(t) => Ok(t),
        None => Err(EntryError::InvalidTime),
    }
}

/// Splits a line at its first `=` and trims both sides.
pub fn split_entry(line: &str) -> (r: Option<(&str, &str)>)
    ensures
        match r {
            Some(sides) => sides_of(line@) == Some((sides.0@, sides.1@)),
            None => sides_of(line@) is None,
        },
{
    let len = line.unicode_len();
    proof {
        assert(line@.subrange(0, len as int) =~= line@);
    }
    let k = find_char(line, 0, '=');
    if k < len {
        let before = line.substring_char(0, k);
        let after = line.substring_char(k + 1, len);
        Some((trim(before), trim(after)))
    } else {
        None
    }
}

/// Reads one line of the configuration, `TIME = WALLPAPER`.
pub fn parse_entry(line: &str) -> (r: Result<ScheduleEntry, EntryError>)
    ensures
        match r {
            Ok(entry) => entry_of(line@) == Ok::<EntryView, EntryError>(entry@),
            Err(cause) => entry_of(line@) == Err::<EntryView, EntryError>(cause),
        },
{
    match split_entry(line) {
        None => Err(EntryError::MissingSeparator),
        Some(sides) => match parse_time(sides.0) {
            Err(cause) => Err(cause),
            Ok(time) => Ok(ScheduleEntry { time, wallpaper: String::from_str(sides.1) }),
        },
    }
}

/// Reads the entries of a configuration text, line by line. Empty lines are
/// passed over; any other line that is no entry fails the whole text.
pub fn read_entries(text: &str) -> (r: Result<Vec<ScheduleEntry>, ConfigError>)
    ensures
        match r {
            Ok(entries) => declared(text@) == Ok::<Seq<EntryView>, ConfigError>(views(entries@)),
            Err(e) => declared(text@) == Err::<Seq<EntryView>, ConfigError>(e),
        },
{
    let len = text.unicode_len();
    let ghost lines = split_lines(text@);
    let mut found: Vec<ScheduleEntry> = Vec::new();
    let mut start: usize = 0;
    let mut index: usize = 0;
    proof {
        assert(text@.subrange(0, len as int) =~= text@);
        assert(views(found@) =~= Seq::<EntryView>::empty());
    }
    loop
        invariant
            len == text@.len(),
            start <= len,
            index <= start,
            lines == split_lines(text@),
            lines.subrange(index as int, lines.len() as int) == split_lines(
                text@.subrange(start as int, len as int),
            ),
            index < lines.len(),
            entries_of(lines, index as int) == Ok::<Seq<EntryView>, ConfigError>(views(found@)),
        decreases len - start,
    {
        let ghost rest = text@.subrange(start as int, len as int);
        let end = find_char(text, start, '\n');
        let stop = if end < len && end > start && text.get_char(end - 1) == '\r' {
            end - 1
        } else {
            end
        };
        let line = text.substring_char(start, stop);
        proof {
            lemma_first_index(rest, '\n');
            let tail = lines.subrange(index as int, lines.len() as int);
            assert(tail[0] == lines[index as int]);
            let piece = rest.subrange(0, end - start);
            assert(piece =~= text@.subrange(start as int, end as int));
            if end > start {
                assert(piece.last() == text@[end - 1]);
            }
            if end < len {
                assert(line@ =~= without_return(piece));
            } else {
                assert(line@ =~= piece);
            }
            if end == len {
                assert(rest.subrange(0, rest.len() as int) =~= rest);
                assert(tail.len() == 1);
            } else {
                assert(rest.subrange(end - start + 1, rest.len() as int) =~= text@.subrange(
                    end + 1,
                    len as int,
                ));
                assert(tail.subrange(1, tail.len() as int) =~= split_lines(
                    text@.subrange(end + 1, len as int),
                ));
                assert(tail.subrange(1, tail.len() as int) =~= lines.subrange(
                    index + 1,
                    lines.len() as int,
                ));
            }
            assert(lines[index as int] == line@);
        }
        let ghost before = views(found@);
        if stop > start {
            match parse_entry(line) {
                Err(cause) => {
                    proof {
                        lemma_entries_of_stays_failed(lines, index + 1, lines.len() as int);
                    }
                    return Err(ConfigError::Line { index, cause });
                },
                Ok(entry) => {
                    found.push(entry);
                    assert(views(found@) =~= before.push(entry@));
                },
            }
        }
        if end == len {
            return Ok(found);
        }
        start = end + 1;
        index = index + 1;
    }
}

/// A text fails exactly where one of its lines is neither empty nor an
/// entry.
pub proof fn lemma_fails_on_a_bad_line(lines: Seq<Seq<char>>, upto: int)
    requires
        0 <= upto <= lines.len(),
    ensures
        entries_of(lines, upto) is Err <==> exists|i: int|
            0 <= i < upto && is_bad_line(#[trigger] lines[i]),
    decreases upto,
{
    if upto > 0 {
        lemma_fails_on_a_bad_line(lines, upto - 1);
        if entries_of(lines, upto - 1) is Err {
            let i = choose|i: int| 0 <= i < upto - 1 && is_bad_line(#[trigger] lines[i]);
            assert(0 <= i < upto && is_bad_line(lines[i]));
        } else if is_bad_line(lines[upto - 1]) {
            assert(entries_of(lines, upto) is Err);
        } else {
            assert(entries_of(lines, upto) is Ok);
            assert forall|i: int| 0 <= i < upto implies !is_bad_line(#[trigger] lines[i]) by {
                if i < upto - 1 {
                    assert(!is_bad_line(lines[i]));
                }
            }
        }
    }
}

/// A configuration text fails exactly where one of its lines is neither
/// empty nor an entry.
pub proof fn lemma_text_fails_on_a_bad_line(text: Seq<char>)
    ensures
        declared(text) is Err <==> exists|i: int|
            0 <= i < split_lines(text).len() && is_bad_line(#[trigger] split_lines(text)[i]),
{
    lemma_fails_on_a_bad_line(split_lines(text), split_lines(text).len() as int);
}

/// A line that is not empty and holds white space only is no entry: it has
/// no `=`.
pub proof fn lemma_white_space_line_is_bad(line: Seq<char>)
    requires
        line.len() > 0,
        forall|i: int| 0 <= i < line.len() ==> is_space(#[trigger] line[i]),
    ensures
        entry_of(line) == Err::<EntryView, EntryError>(EntryError::MissingSeparator),
        is_bad_line(line),
{
    lemma_first_index(line, '=');
    let k = first_index(line, '=');
    if k < line.len() {
        assert(is_space(line[k]));
        assert(line[k] == '=');
        assert(!is_space('='));
    }
}

/// Once a line has failed, further lines do not change the outcome.
pub proof fn lemma_entries_of_stays_failed(lines: Seq<Seq<char>>, failed: int, upto: int)
    requires
        entries_of(lines, failed) is Err,
        failed <= upto,
    ensures
        entries_of(lines, upto) == entries_of(lines, failed),
    decreases upto - failed,
{
    if failed < upto {
        lemma_entries_of_stays_failed(lines, failed, upto - 1);
    }
}

/// A text fails only at one of its lines.
pub proof fn lemma_failure_names_line(lines: Seq<Seq<char>>, upto: int)
    ensures
        entries_of(lines, upto) matches Err(e) ==> e is Line,
    decreases upto,
{
    if upto > 0 {
        lemma_failure_names_line(lines, upto - 1);
    }
}

/// Reads a configuration text and sorts its entries by time; entries of one
/// time stay in the order of their lines.
pub fn parse_wallpaper_config(text: &str) -> (r: Result<Vec<ScheduleEntry>, ConfigError>)
    ensures
        match r {
            Ok(entries) => declared(text@) is Ok && stable_sort_of(
                views(entries@),
                declared(text@)->Ok_0,
            ),
            Err(e) => declared(text@) == Err::<Seq<EntryView>, ConfigError>(e),
        },
{
    match read_entries(text) {
        Ok(entries) => Ok(sort_entries(entries)),
        Err(e) => Err(e),
    }
}

/// Reads a configuration text into a schedule. A text without entries gives
/// none.
pub fn load_schedule(text: &str) -> (r: Result<Schedule, ConfigError>)
    ensures
        match r {
            Ok(schedule) => declared(text@) is Ok && stable_sort_of(
                schedule@,
                declared(text@)->Ok_0,
            ) && schedule@.len() > 0,
            Err(ConfigError::Empty) => declared(text@) == Ok::<Seq<EntryView>, ConfigError>(
                Seq::empty(),
            ),
            Err(e) => declared(text@) == Err::<Seq<EntryView>, ConfigError>(e),
        },
{
    match read_entries(text) {
        Err(e) => {
            proof {
                lemma_failure_names_line(split_lines(text@), split_lines(text@).len() as int);
            }
            Err(e)
        },
        Ok(entries) => {
            assert(views(entries@).len() == entries@.len());
            match Schedule::new(entries) {
                Some(schedule) => Ok(schedule),
                None => {
                    assert(views(entries@) =~= Seq::<EntryView>::empty());
                    Err(ConfigError::Empty)
                },
            }
        },
    }
}

} // verus!

//! What is known of a game's start, as read from one row of the schedule.
//!
//! A row names a day in its first cell (`11/26/19`) and a time of day in its
//! second (`7:10 PM`). Where both are there, they are rewritten into one
//! timestamp, seven hours west of Greenwich, and handed to chrono, which
//! says which instant that is.

use vstd::prelude::*;
use vstd::string::*;
use crate::csv_reader::table_texts;
use crate::text::{append_decimal, chars_of, decimal, replace_char, replaced, split, split_on, texts};

verus! {

/// The furthest from the Unix epoch, in milliseconds either way, that an
/// instant may lie: a hundred million days, which is further than chrono
/// can name a day.
pub const MAX_INSTANT_MILLIS: i64 = 8_640_000_000_000_000;

/// Whether `millis` milliseconds since the Unix epoch are an instant.
pub open spec fn representable(millis: int) -> bool {
    -MAX_INSTANT_MILLIS <= millis <= MAX_INSTANT_MILLIS
}

/// An instant in UTC, as milliseconds since the Unix epoch. It lies near
/// enough to the epoch for any number of minutes that a `u32` can hold to
/// be added to it or taken from it.
#[derive(Debug, PartialEq, Eq, Clone, Copy)]
pub struct Instant {
    millis: i64,
}

impl View for Instant {
    type V = int;

    closed spec fn view(&self) -> int {
        self.millis as int
    }
}

impl Instant {
    #[verifier::type_invariant]
    spec fn in_range(self) -> bool {
        representable(self.millis as int)
    }

    /// The instant `millis` milliseconds after the Unix epoch, if that is
    /// one.
    pub fn from_millis(millis: i64) -> (instant: Option<Instant>)
        ensures
            instant is Some <==> representable(millis as int),
            instant matches Some(found) ==> found@ == millis,
    {
        if -MAX_INSTANT_MILLIS <= millis && millis <= MAX_INSTANT_MILLIS {
            Some(Instant { millis })
        } else {
            None
        }
    }

    /// The milliseconds from the Unix epoch to the instant.
    pub fn millis(&self) -> (millis: i64)
        ensures
            millis == self@,
            representable(millis as int),
    {
        proof {
            use_type_invariant(self);
        }
        self.millis
    }
}

/// A game of the schedule, by how much of its start is known.
#[derive(Debug, PartialEq, Clone)]
#[allow(inconsistent_fields)]
pub enum Game {
    /// Day and time of day are both known and name one instant.
    PerfectlyScheduledGame { start_date_time: Instant },
    /// Only the day is known.
    GameWithDay { start_day: String },
    /// Only the time of day is known.
    GameWithTime { start_time: String },
    /// Neither could be made out; the fragments found are kept.
    UnclearGame {
        start_date_time: Option<Instant>,
        start_day: Option<String>,
        start_time: Option<String>,
    },
}

/// A game as a mathematical value: texts in place of strings, numbers of
/// milliseconds in place of instants.
#[allow(inconsistent_fields)]
pub enum GameView {
    PerfectlyScheduledGame { start_date_time: int },
    GameWithDay { start_day: Seq<char> },
    GameWithTime { start_time: Seq<char> },
    UnclearGame {
        start_date_time: Option<int>,
        start_day: Option<Seq<char>>,
        start_time: Option<Seq<char>>,
    },
}

/// The milliseconds of an instant that may be missing.
pub open spec fn millis_of(instant: Option<Instant>) -> Option<int> {
    match instant {
        Some(instant) => Some(instant@),
        None => None,
    }
}

/// The text of a string that may be missing.
pub open spec fn text_of(s: Option<String>) -> Option<Seq<char>> {
    match s {
        Some(s) => Some(s@),
        None => None,
    }
}

impl View for Game {
    type V = GameView;

    open spec fn view(&self) -> GameView {
        match *self {
            Game::PerfectlyScheduledGame { start_date_time } => GameView::PerfectlyScheduledGame {
                start_date_time: start_date_time@,
            },
            Game::GameWithDay { start_day } => GameView::GameWithDay { start_day: start_day@ },
            Game::GameWithTime { start_time } => GameView::GameWithTime { start_time: start_time@ },
            Game::UnclearGame { start_date_time, start_day, start_time } => GameView::UnclearGame {
                start_date_time: millis_of(start_date_time),
                start_day: text_of(start_day),
                start_time: text_of(start_time),
            },
        }
    }
}

/// Whether `char::is_numeric` holds of `c`: whether the character is a
/// number of any script, as the Unicode tables of the standard library
/// have it.
pub uninterp spec fn numeric_char(c: char) -> bool;

/// `char::is_numeric`. The answer depends on the character alone; nothing
/// else is claimed of it.
#[verifier::external_body]
fn is_numeric(c: char) -> (numeric: bool)
    ensures
        numeric == numeric_char(c),
{
    c.is_numeric()
}

/// The instant that chrono reads from `text`, in milliseconds since the
/// Unix epoch, if it reads one: `text` parsed as a `DateTime<Utc>`, which
/// accepts a relaxed RFC 3339 timestamp and converts it to UTC, then
/// `timestamp_millis`.
pub uninterp spec fn utc_millis(text: Seq<char>) -> Option<i64>;

/// Parses `text` as a chrono `DateTime<Utc>` and takes its
/// `timestamp_millis`. The parser reads nothing but the text, so the result
/// is a function of it; which function, only chrono says.
#[verifier::external_body]
fn parse_utc_millis(text: &str) -> (millis: Option<i64>)
    ensures
        millis == utc_millis(text@),
{
    match text.parse::<chrono::DateTime<chrono::Utc>>() {
        Ok(instant) => Some(instant.timestamp_millis()),
        Err(_) => None,
    }
}

/// Whether some character of `s` is a number.
pub open spec fn has_numeric(s: Seq<char>) -> bool {
    exists|i: int| 0 <= i < s.len() && numeric_char(#[trigger] s[i])
}

fn contains_number_like_chars(c: &str) -> (found: bool)
    ensures
        found == has_numeric(c@),
{
    let chars: Vec<char> = chars_of(c);
    let mut i: usize = 0;
    while i < chars.len()
        invariant
            i <= chars.len(),
            chars@ == c@,
            forall|k: int| 0 <= k < i ==> !numeric_char(#[trigger] c@[k]),
        decreases chars.len() - i,
    {
        if is_numeric(chars[i]) {
            return true;
        }
        i += 1;
    }
    false
}

/// A cell as a day: its text, if it holds a number at all.
pub open spec fn parsed_fragment(cell: Seq<char>) -> Option<Seq<char>> {
    if has_numeric(cell) {
        Some(cell)
    } else {
        None
    }
}

fn parse_start_day(c: &str) -> (day: Option<String>)
    ensures
        text_of(day) == parsed_fragment(c@),
{
    if contains_number_like_chars(c) {
        Some(c.to_owned())
    } else {
        None
    }
}

fn parse_start_time(c: &str) -> (time: Option<String>)
    ensures
        text_of(time) == parsed_fragment(c@),
{
    if contains_number_like_chars(c) {
        Some(c.to_owned())
    } else {
        None
    }
}

/// Whether `c` is one of the ten decimal digits.
pub open spec fn is_digit(c: char) -> bool {
    48 <= c as u32 <= 57
}

/// The number that a text of decimal digits spells.
pub open spec fn number(digits: Seq<char>) -> nat
    decreases digits.len(),
{
    if digits.len() == 0 {
        0
    } else {
        number(digits.drop_last()) * 10 + (digits.last() as u32 - 48) as nat
    }
}

/// `s` without a plus sign at its front, if it has one.
pub open spec fn unsigned_part(s: Seq<char>) -> Seq<char> {
    if s.len() > 0 && s[0] == '+' {
        s.skip(1)
    } else {
        s
    }
}

/// The byte that `s` spells in decimal: one or more digits, after at most
/// one plus sign, that amount to 255 or less. Anything else, blanks
/// included, spells no byte.
pub open spec fn parsed_u8(s: Seq<char>) -> Option<u8> {
    let digits = unsigned_part(s);
    if digits.len() > 0 && (forall|i: int| 0 <= i < digits.len() ==> is_digit(#[trigger] digits[i]))
        && number(digits) <= 255 {
        Some(number(digits) as u8)
    } else {
        None
    }
}

proof fn lemma_number_grows(digits: Seq<char>, i: int)
    requires
        0 <= i <= digits.len(),
        forall|k: int| 0 <= k < digits.len() ==> is_digit(#[trigger] digits[k]),
    ensures
        number(digits.take(i)) <= number(digits),
    decreases digits.len() - i,
{
    if i < digits.len() {
        lemma_number_grows(digits, i + 1);
        assert(digits.take(i + 1).drop_last() =~= digits.take(i));
    } else {
        assert(digits.take(i) =~= digits);
    }
}

fn parse_u8(s: &str) -> (byte: Option<u8>)
    ensures
        byte == parsed_u8(s@),
{
    let chars: Vec<char> = chars_of(s);
    let n: usize = chars.len();
    let first: usize = if n > 0 && chars[0] == '+' {
        1
    } else {
        0
    };
    let ghost digits = unsigned_part(s@);
    if first == n {
        return None;
    }
    let mut value: u32 = 0;
    let mut i: usize = first;
    while i < n
        invariant
            first <= i <= n,
            n == s@.len(),
            chars@ == s@,
            digits == s@.skip(first as int),
            digits == unsigned_part(s@),
            forall|k: int| 0 <= k < i - first ==> is_digit(#[trigger] digits[k]),
            value == number(digits.take(i - first)),
            value <= 255,
        decreases n - i,
    {
        let c: u32 = chars[i] as u32;
        assert(digits.take(i - first + 1).drop_last() =~= digits.take(i - first));
        if c < 48 || c > 57 {
            assert(!is_digit(digits[i - first]));
            return None;
        }
        value = value * 10 + (c - 48);
        if value > 255 {
            proof {
                if forall|k: int| 0 <= k < digits.len() ==> is_digit(#[trigger] digits[k]) {
                    lemma_number_grows(digits, i - first + 1);
                }
            }
            return None;
        }
        i += 1;
    }
    assert(digits.take(n - first) =~= digits);
    Some(value as u8)
}

/// The day `date`, written month, day and two-digit year between slashes,
/// as year, month and day between hyphens, in this century. A text that is
/// not three parts between slashes is kept, its slashes turned into
/// hyphens.
pub open spec fn date_text(date: Seq<char>) -> Seq<char> {
    let parts = split(date, '/');
    replaced(
        if parts.len() == 3 {
            "20"@ + parts[2] + "-"@ + parts[0] + "-"@ + parts[1]
        } else {
            date
        },
        '/',
        '-',
    )
}

/// Rewrites a day of the schedule as the date part of a timestamp.
pub fn transform_mariners_date(date_str: &str) -> (date: String)
    ensures
        date@ == date_text(date_str@),
{
    let date_parts: Vec<&str> = split_on(date_str, '/');
    let rewritten: String = if date_parts.len() == 3 {
        let mut out: String = "20".to_owned();
        out.append(date_parts[2]);
        out.append("-");
        out.append(date_parts[0]);
        out.append("-");
        out.append(date_parts[1]);
        out
    } else {
        date_str.to_owned()
    };
    replace_char(rewritten.as_str(), '/', '-')
}

/// The hour of a twelve-hour clock on a twenty-four-hour one: twelve more
/// after noon, which the word `PM` marks; any other word leaves the hour as
/// it is.
pub open spec fn hour_of_day(hour: u8, meridiem: Seq<char>) -> int {
    if meridiem == seq!['P', 'M'] {
        hour + 12
    } else {
        hour as int
    }
}

/// The time of day `time`, written as hours and minutes between colons, a
/// blank and `AM` or `PM`, as the time part of a timestamp seven hours west
/// of Greenwich.
///
/// There is none where the blank is missing, where the part before it does
/// not hold at least two fields between colons, where any of its fields
/// does not spell a byte, or where the hour of the day would not be a byte.
pub open spec fn clock_text(time: Seq<char>) -> Option<Seq<char>> {
    let words = split(time, ' ');
    let fields = split(words[0], ':');
    if words.len() >= 2 && fields.len() >= 2 && (forall|i: int|
        0 <= i < fields.len() ==> (#[trigger] parsed_u8(fields[i])) is Some) && hour_of_day(
        parsed_u8(fields[0])->0,
        words[1],
    ) <= 255 {
        Some(
            decimal(hour_of_day(parsed_u8(fields[0])->0, words[1]) as nat) + ":"@ + decimal(
                parsed_u8(fields[1])->0 as nat,
            ) + ":00.0000000-0700"@,
        )
    } else {
        None
    }
}

fn from_12_hr_fmt_to_24_hr_ft(hour: u8, meridian: &str) -> (hour_text: Option<String>)
    ensures
        text_of(hour_text) == if hour_of_day(hour, meridian@) <= 255 {
            Some(decimal(hour_of_day(hour, meridian@) as nat))
        } else {
            None
        },
{
    let letters: Vec<char> = chars_of(meridian);
    let after_noon: bool = letters.len() == 2 && letters[0] == 'P' && letters[1] == 'M';
    assert(after_noon == (meridian@ == seq!['P', 'M'])) by {
        if after_noon {
            assert(meridian@ =~= seq!['P', 'M']);
        }
    }
    let shift: u64 = if after_noon {
        12
    } else {
        0
    };
    let hour_of_day: u64 = hour as u64 + shift;
    if hour_of_day > 255 {
        None
    } else {
        let mut text: String = String::new();
        append_decimal(&mut text, hour_of_day);
        Some(text)
    }
}

/// Rewrites a time of day of the schedule as the time part of a timestamp,
/// if it is written as one.
pub fn transform_mariners_time(time_str: &str) -> (time: Option<String>)
    ensures
        text_of(time) == clock_text(time_str@),
{
    let time_and_meridiem: Vec<&str> = split_on(time_str, ' ');
    if time_and_meridiem.len() < 2 {
        return None;
    }
    let time: &str = time_and_meridiem[0];
    let meridiem: &str = time_and_meridiem[1];
    let fields: Vec<&str> = split_on(time, ':');
    let mut time_pieces: Vec<u8> = Vec::new();
    let mut i: usize = 0;
    while i < fields.len()
        invariant
            i <= fields.len(),
            time_pieces@.len() == i,
            texts(fields@) == split(time@, ':'),
            time@ == split(time_str@, ' ')[0],
            forall|k: int| 0 <= k < i ==> parsed_u8(fields@[k]@) == Some(#[trigger] time_pieces@[k]),
        decreases fields.len() - i,
    {
        match parse_u8(fields[i]) {
            Some(piece) => {
                time_pieces.push(piece);
            },
            None => {
                assert(parsed_u8(split(time@, ':')[i as int]) is None);
                return None;
            },
        }
        i += 1;
    }
    assert forall|k: int| 0 <= k < fields@.len() implies (#[trigger] parsed_u8(
        split(time@, ':')[k],
    )) is Some by {
        assert(parsed_u8(fields@[k]@) == Some(time_pieces@[k]));
    }
    if time_pieces.len() < 2 {
        return None;
    }
    let hour: u8 = time_pieces[0];
    let minute: u8 = time_pieces[1];
    match from_12_hr_fmt_to_24_hr_ft(hour, meridiem) {
        Some(hours_in_24_hr_format) => {
            let mut out: String = hours_in_24_hr_format;
            out.append(":");
            append_decimal(&mut out, minute as u64);
            out.append(":00.0000000-0700");
            Some(out)
        },
        None => None,
    }
}

/// The timestamp that a day and a time of day make: the day, a `T`, the
/// time. There is none where the time of day has none.
pub open spec fn timestamp_text(date: Seq<char>, time: Seq<char>) -> Option<Seq<char>> {
    match clock_text(time) {
        Some(clock) => Some(date_text(date) + "T"@ + clock),
        None => None,
    }
}

/// The game that a day and a time of day make, once chrono has read
/// `instant` from their timestamp, or has read none: a fully scheduled game
/// at that instant, and no game where chrono read none or read milliseconds
/// that are no instant.
pub open spec fn perfect_game(instant: Option<i64>) -> Option<GameView> {
    match instant {
        Some(millis) => if representable(millis as int) {
            Some(GameView::PerfectlyScheduledGame { start_date_time: millis as int })
        } else {
            None
        },
        None => None,
    }
}

/// The game with the start that was read from a timestamp, if one was read.
pub fn game_at(instant: Option<i64>) -> (game: Option<Game>)
    ensures
        game_view(game) == perfect_game(instant),
{
    match instant {
        Some(millis) => match Instant::from_millis(millis) {
            Some(start_date_time) => Some(Game::PerfectlyScheduledGame { start_date_time }),
            None => None,
        },
        None => None,
    }
}

/// The view of a game that may be missing.
pub open spec fn game_view(game: Option<Game>) -> Option<GameView> {
    match game {
        Some(game) => Some(game@),
        None => None,
    }
}

fn create_perfect_game(date_str: &str, time_str: &str) -> (game: Option<Game>)
    ensures
        game_view(game) == match timestamp_text(date_str@, time_str@) {
            Some(timestamp) => perfect_game(utc_millis(timestamp)),
            None => None,
        },
{
    let iso_8061_ts_start: String = transform_mariners_date(date_str);
    match transform_mariners_time(time_str) {
        Some(iso_8061_ts_end) => {
            let mut date_time: String = iso_8061_ts_start;
            date_time.append("T");
            date_time.append(iso_8061_ts_end.as_str());
            game_at(parse_utc_millis(date_time.as_str()))
        },
        None => None,
    }
}

/// The day that a row names: its first cell, if there is one and it holds a
/// number.
pub open spec fn day_of(row: Seq<Seq<char>>) -> Option<Seq<char>> {
    if row.len() > 0 {
        parsed_fragment(row[0])
    } else {
        None
    }
}

/// The time of day that a row names: its second cell, if there is one and
/// it holds a number.
pub open spec fn time_of(row: Seq<Seq<char>>) -> Option<Seq<char>> {
    if row.len() > 1 {
        parsed_fragment(row[1])
    } else {
        None
    }
}

/// The game that a day and a time of day make, where either may be
/// missing.
///
/// With both it is a fully scheduled game at the instant that chrono reads
/// from their timestamp, and no game at all where there is no timestamp or
/// chrono reads no instant from it. With only one of the
/// two it is a game with that day, or that time. With neither it is an
/// unclear game without any fragment.
pub open spec fn game_of(day: Option<Seq<char>>, time: Option<Seq<char>>) -> Option<GameView> {
    match (day, time) {
        (Some(day), Some(time)) => match timestamp_text(day, time) {
            Some(timestamp) => perfect_game(utc_millis(timestamp)),
            None => None,
        },
        (Some(day), None) => Some(GameView::GameWithDay { start_day: day }),
        (None, Some(time)) => Some(GameView::GameWithTime { start_time: time }),
        (None, None) => Some(
            GameView::UnclearGame { start_date_time: None, start_day: None, start_time: None },
        ),
    }
}

/// The game that a row spells out: the game of the day and the time of day
/// that it names.
pub open spec fn parsed_game(row: Seq<Seq<char>>) -> Option<GameView> {
    game_of(day_of(row), time_of(row))
}

/// Makes a game of the day and the time of day that were found in a row.
pub fn game_from(start_day: Option<String>, start_time: Option<String>) -> (game: Option<Game>)
    ensures
        game_view(game) == game_of(text_of(start_day), text_of(start_time)),
{
    match (start_day, start_time) {
        (Some(date), Some(time)) => create_perfect_game(date.as_str(), time.as_str()),
        (Some(day), None) => Some(Game::GameWithDay { start_day: day }),
        (None, Some(t)) => Some(Game::GameWithTime { start_time: t }),
        (None, None) => Some(
            Game::UnclearGame { start_date_time: None, start_day: None, start_time: None },
        ),
    }
}

/// Reads a game from a row of the schedule.
pub fn parse_game_from(csv_row: &[&str]) -> (game: Option<Game>)
    ensures
        game_view(game) == parsed_game(texts(csv_row@)),
{
    let start_day: Option<String> = if csv_row.len() > 0 {
        parse_start_day(csv_row[0])
    } else {
        None
    };
    let start_time: Option<String> = if csv_row.len() > 1 {
        parse_start_time(csv_row[1])
    } else {
        None
    };
    game_from(start_day, start_time)
}

/// The starts of the fully scheduled games among `rows`, in the order of the
/// rows. Rows that spell out any other game, or none, are passed over.
pub open spec fn scheduled_starts(rows: Seq<Seq<Seq<char>>>) -> Seq<int>
    decreases rows.len(),
{
    if rows.len() == 0 {
        Seq::empty()
    } else {
        let before = scheduled_starts(rows.drop_last());
        match parsed_game(rows.last()) {
            Some(GameView::PerfectlyScheduledGame { start_date_time }) => before.push(
                start_date_time,
            ),
            _ => before,
        }
    }
}

/// The views of a list of games, in order.
pub open spec fn game_views(games: Seq<Game>) -> Seq<GameView> {
    Seq::new(games.len(), |i: int| games[i]@)
}

/// The fully scheduled games of a schedule, in the order of its rows.
pub fn parse_perfectly_scheduled_games(raw_csv_rows: Vec<Vec<&str>>) -> (games: Vec<Game>)
    ensures
        game_views(games@) == Seq::new(
            scheduled_starts(table_texts(raw_csv_rows@)).len(),
            |i: int|
                GameView::PerfectlyScheduledGame {
                    start_date_time: scheduled_starts(table_texts(raw_csv_rows@))[i],
                },
        ),
{
    let ghost table = table_texts(raw_csv_rows@);
    let mut games: Vec<Game> = Vec::new();
    let mut i: usize = 0;
    while i < raw_csv_rows.len()
        invariant
            i <= raw_csv_rows.len(),
            table == table_texts(raw_csv_rows@),
            games@.len() == scheduled_starts(table.take(i as int)).len(),
            forall|k: int|
                0 <= k < games@.len() ==> (#[trigger] games@[k])@
                    == (GameView::PerfectlyScheduledGame {
                    start_date_time: scheduled_starts(table.take(i as int))[k],
                }),
        decreases raw_csv_rows.len() - i,
    {
        assert(table.take(i + 1).drop_last() =~= table.take(i as int));
        match parse_game_from(raw_csv_rows[i].as_slice()) {
            Some(Game::PerfectlyScheduledGame { start_date_time }) => {
                games.push(Game::PerfectlyScheduledGame { start_date_time });
            },
            _ => {},
        }
        i += 1;
    }
    assert(table.take(raw_csv_rows.len() as int) =~= table);
    games
}

} // verus!

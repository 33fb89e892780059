use chrono::{DateTime, TimeZone, Utc};
use mariners_warner::csv_reader::read_rows;
use mariners_warner::game_parser::{
    game_at, game_from, parse_game_from, parse_perfectly_scheduled_games, transform_mariners_date,
    transform_mariners_time, Game, Instant, MAX_INSTANT_MILLIS,
};

#[test]
#[allow(deprecated)]
fn game_parser_it_works() {
    assert_eq!(
        Ok(Utc.ymd(2015, 5, 15).and_hms(0, 0, 0)),
        "2015-05-15T00:00:00Z".parse::<DateTime<Utc>>()
    );

    let r = parse_game_from(&vec!["11/26/19", "11:30 PM"]);
    assert_eq!(
        Some(Game::PerfectlyScheduledGame {
            start_date_time: Instant::from_millis(
                Utc.ymd(2019, 11, 27).and_hms(6, 30, 0).timestamp_millis()
            )
            .unwrap()
        }),
        r
    );

    assert_eq!(
        Some(Game::GameWithDay {
            start_day: "11/26/19".to_string()
        }),
        parse_game_from(&vec!["11/26/19"])
    );

    assert_eq!(
        Some(Game::GameWithTime {
            start_time: "11:23 PM".to_string()
        }),
        parse_game_from(&vec!["", "11:23 PM"])
    );
}

fn instant(text: &str) -> Instant {
    Instant::from_millis(text.parse::<DateTime<Utc>>().unwrap().timestamp_millis()).unwrap()
}

#[test]
fn a_morning_game_keeps_its_hour() {
    assert_eq!(
        Some(Game::PerfectlyScheduledGame { start_date_time: instant("2019-04-01T10:05:00-07:00") }),
        parse_game_from(&["04/01/19", "10:05 AM"])
    );
}

#[test]
fn an_evening_game_is_twelve_hours_later() {
    assert_eq!(
        Some(Game::PerfectlyScheduledGame { start_date_time: instant("2019-03-28T19:10:00-07:00") }),
        parse_game_from(&["03/28/19", "7:10 PM"])
    );
    assert_eq!(1_553_825_400_000, instant("2019-03-28T19:10:00-07:00").millis());
}

#[test]
fn a_plus_sign_and_leading_zeros_spell_the_same_hour() {
    let plain = parse_game_from(&["03/28/19", "7:10 PM"]);
    assert!(plain.is_some());
    assert_eq!(plain, parse_game_from(&["03/28/19", "+7:010 PM"]));
    assert_eq!(plain, parse_game_from(&["03/28/19", "007:+10 PM"]));
}

#[test]
fn further_fields_and_words_of_the_time_are_read_but_not_used() {
    let plain = parse_game_from(&["03/28/19", "7:10 PM"]);
    assert_eq!(plain, parse_game_from(&["03/28/19", "7:10:59 PM PDT"]));
    assert_eq!(None, parse_game_from(&["03/28/19", "7:10:xx PM"]));
}

#[test]
fn a_row_without_numbers_is_unclear() {
    let unclear = Some(Game::UnclearGame { start_date_time: None, start_day: None, start_time: None });
    assert_eq!(unclear, parse_game_from(&[]));
    assert_eq!(unclear, parse_game_from(&[""]));
    assert_eq!(unclear, parse_game_from(&["START DATE", "START TIME", "SUBJECT"]));
    assert_eq!(unclear, parse_game_from(&["", "soon", "7:10 PM"]));
}

#[test]
fn numbers_of_any_script_make_a_fragment() {
    assert_eq!(
        Some(Game::GameWithDay { start_day: "\u{0663}".to_string() }),
        parse_game_from(&["\u{0663}", "later"])
    );
    assert_eq!(
        Some(Game::GameWithTime { start_time: "\u{00bd}".to_string() }),
        parse_game_from(&["tomorrow", "\u{00bd}"])
    );
}

#[test]
fn a_time_that_cannot_be_rewritten_gives_no_game() {
    assert_eq!(None, parse_game_from(&["11/26/19", "7:10"]));
    assert_eq!(None, parse_game_from(&["11/26/19", "7 PM"]));
    assert_eq!(None, parse_game_from(&["11/26/19", "7:xx PM"]));
    assert_eq!(None, parse_game_from(&["11/26/19", ":10 PM"]));
    assert_eq!(None, parse_game_from(&["11/26/19", "7:256 PM"]));
    assert_eq!(None, parse_game_from(&["11/26/19", "-7:10 PM"]));
    assert_eq!(None, parse_game_from(&["11/26/19", "+:10 PM"]));
    assert_eq!(None, parse_game_from(&["11/26/19", " 7:10 PM"]));
    assert_eq!(None, parse_game_from(&["11/26/19", "244:10 PM"]));
}

#[test]
fn a_timestamp_the_calendar_refuses_gives_no_game() {
    assert_eq!(None, parse_game_from(&["11/26/19", "12:30 PM"]));
    assert_eq!(None, parse_game_from(&["13/26/19", "7:10 PM"]));
    assert_eq!(None, parse_game_from(&["11/26", "7:10 PM"]));
    assert_eq!(None, parse_game_from(&["11/26/19", "7:60 AM"]));
    assert_eq!(None, parse_game_from(&["243:10 PM", "243:10 PM"]));
}

#[test]
fn a_day_with_hyphens_is_taken_as_written() {
    assert_eq!(
        Some(Game::PerfectlyScheduledGame { start_date_time: instant("2019-11-26T08:00:00-07:00") }),
        parse_game_from(&["2019-11-26", "8:0 AM"])
    );
}

#[test]
fn only_fully_scheduled_games_are_kept() {
    let rows = read_rows(
        "START DATE,START TIME,SUBJECT\r\n03/28/19,7:10 PM,Red Sox at Mariners\r\n03/29/19,,Red Sox at Mariners\r\n,1:10 PM,\r\n03/31/19,1:10 PM,Red Sox at Mariners\r\n04/01/19,noon,Angels at Mariners\r\n04/02/19,7:10,Angels at Mariners\r\n",
    );
    assert_eq!(
        vec![
            Game::PerfectlyScheduledGame { start_date_time: instant("2019-03-28T19:10:00-07:00") },
            Game::PerfectlyScheduledGame { start_date_time: instant("2019-03-31T13:10:00-07:00") },
        ],
        parse_perfectly_scheduled_games(rows)
    );
    assert_eq!(Vec::<Game>::new(), parse_perfectly_scheduled_games(vec![]));
}

#[test]
fn an_instant_makes_a_fully_scheduled_game() {
    assert_eq!(
        Some(Game::PerfectlyScheduledGame { start_date_time: Instant::from_millis(-5).unwrap() }),
        game_at(Some(-5))
    );
    assert_eq!(None, game_at(None));
    assert_eq!(None, game_at(Some(MAX_INSTANT_MILLIS + 1)));
    assert_eq!(None, game_at(Some(i64::MIN)));
}

#[test]
fn a_day_is_rewritten_year_first() {
    assert_eq!("2019-11-26", transform_mariners_date("11/26/19"));
    assert_eq!("2019-4-1", transform_mariners_date("4/1/19"));
    assert_eq!("11-26", transform_mariners_date("11/26"));
    assert_eq!("1-2-3-4", transform_mariners_date("1/2/3/4"));
    assert_eq!("2019-11-26", transform_mariners_date("2019-11-26"));
    assert_eq!("20--", transform_mariners_date("//"));
}

#[test]
fn a_time_of_day_is_rewritten_on_the_full_day_clock() {
    assert_eq!(Some("23:30:00.0000000-0700".to_string()), transform_mariners_time("11:30 PM"));
    assert_eq!(Some("7:5:00.0000000-0700".to_string()), transform_mariners_time("7:05 AM"));
    assert_eq!(Some("24:0:00.0000000-0700".to_string()), transform_mariners_time("12:00 PM"));
    assert_eq!(Some("7:10:00.0000000-0700".to_string()), transform_mariners_time("7:10 pm"));
    assert_eq!(Some("255:255:00.0000000-0700".to_string()), transform_mariners_time("243:255 PM"));
    assert_eq!(None, transform_mariners_time("244:10 PM"));
    assert_eq!(None, transform_mariners_time("7:10PM"));
    assert_eq!(None, transform_mariners_time(""));
}

#[test]
fn fragments_make_the_game_they_allow() {
    assert_eq!(
        Some(Game::UnclearGame { start_date_time: None, start_day: None, start_time: None }),
        game_from(None, None)
    );
    assert_eq!(
        Some(Game::GameWithDay { start_day: "someday".to_string() }),
        game_from(Some("someday".to_string()), None)
    );
    assert_eq!(
        Some(Game::GameWithTime { start_time: "7".to_string() }),
        game_from(None, Some("7".to_string()))
    );
    assert_eq!(
        Some(Game::PerfectlyScheduledGame { start_date_time: instant("2019-03-28T19:10:00-07:00") }),
        game_from(Some("03/28/19".to_string()), Some("7:10 PM".to_string()))
    );
    assert_eq!(None, game_from(Some("03/28/19".to_string()), Some("late".to_string())));
}

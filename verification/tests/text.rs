use mariners_warner::text::{append_decimal, chars_of, lines_of, replace_char, split_on};

#[test]
fn a_number_is_written_in_decimal() {
    for (n, expected) in [(0, "0"), (7, "7"), (10, "10"), (255, "255"), (4_294_967_295, "4294967295"), (u64::MAX, "18446744073709551615")] {
        let mut out = String::new();
        append_decimal(&mut out, n);
        assert_eq!(expected, out);
    }
    let mut out = "in ".to_string();
    append_decimal(&mut out, 90);
    assert_eq!("in 90", out);
}

#[test]
fn splitting_follows_the_separators() {
    for sample in ["", ",", "a", "a,b", ",a,,b,", "11/26/19", "caf\u{e9},\u{1f44d}"] {
        let expected: Vec<&str> = sample.split(',').collect();
        assert_eq!(expected, split_on(sample, ','), "for {:?}", sample);
    }
    assert_eq!(vec!["11", "26", "19"], split_on("11/26/19", '/'));
    assert_eq!(vec!["", ""], split_on("\u{1f44d}", '\u{1f44d}'));
}

#[test]
fn the_pieces_join_back_to_the_text() {
    for sample in ["", ":", "7:10", "::7::", "a b"] {
        assert_eq!(sample, split_on(sample, ':').join(":"));
    }
}

#[test]
fn lines_end_at_line_feeds() {
    for sample in ["", "\n", "\r", "\r\n", "a\nb", "a\r\nb\r\n", "a\r\r\n", "a\n\r", "\n\n", "a\rb\n"] {
        let expected: Vec<&str> = sample.lines().collect();
        assert_eq!(expected, lines_of(sample), "for {:?}", sample);
    }
}

#[test]
fn every_occurrence_is_replaced() {
    assert_eq!("11-26-19", replace_char("11/26/19", '/', '-'));
    assert_eq!("", replace_char("", '/', '-'));
    assert_eq!("---", replace_char("///", '/', '-'));
    assert_eq!("no slash", replace_char("no slash", '/', '-'));
}

#[test]
fn the_characters_are_taken_one_by_one() {
    assert_eq!(vec!['a', '\u{e9}', '\u{1f44d}'], chars_of("a\u{e9}\u{1f44d}"));
    assert_eq!(Vec::<char>::new(), chars_of(""));
}

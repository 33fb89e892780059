use mariners_warner::csv_reader::read_rows;

#[test]
fn csv_reader_it_works() {
    assert_eq!(Vec::<Vec<&str>>::new(), read_rows(""));
}

#[test]
fn it_works_with_complicated_examples() {
    assert_eq!(
        vec![
            vec!["header", "column_name", "wtf"],
            vec!["1", "2", "3"],
            vec!["4", "5", "6"]
        ],
        read_rows("header,column_name,wtf\r\n1,2,3\r\n4,5,6")
    );
}

#[test]
fn rows_follow_the_lines_of_the_text() {
    let samples = [
        "",
        "\n",
        "a",
        "a\n",
        "a\r",
        "a\r\n",
        "a\n\nb",
        "a\r\r\nb\r",
        "\r\n\r\n",
        "a,b\n,c,\n,,\n",
        "x\ny\r\nz\n\r",
        "caf\u{e9},na\u{ef}ve\r\n\u{1f44d},ok",
    ];
    for sample in samples {
        let expected: Vec<Vec<&str>> = sample.lines().map(|line| line.split(',').collect()).collect();
        assert_eq!(expected, read_rows(sample), "for {:?}", sample);
    }
}

#[test]
fn empty_cells_are_kept() {
    assert_eq!(vec![vec!["", "", ""]], read_rows(",,"));
    assert_eq!(vec![vec![""], vec!["a", ""]], read_rows("\na,\n"));
}

#[test]
fn a_lone_carriage_return_stays_in_the_last_line() {
    assert_eq!(vec![vec!["a\r"]], read_rows("a\r"));
    assert_eq!(vec![vec!["a"]], read_rows("a\r\n"));
}

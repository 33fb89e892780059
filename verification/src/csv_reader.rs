//! Reading comma-separated text: one row per line, one cell per comma.

use vstd::prelude::*;
use crate::text::{
    free_of,
    lemma_lines_hold_no_line_feed,
    lemma_split_joins_back,
    lemma_split_keeps_out,
    lines,
    lines_of,
    split,
    split_on,
    texts,
};

verus! {

/// The texts of the cells of a table, row by row.
pub open spec fn table_texts(rows: Seq<Vec<&str>>) -> Seq<Seq<Seq<char>>> {
    Seq::new(rows.len(), |i: int| texts(rows[i]@))
}

/// The table that `contents` spells out: its lines, each split at the
/// commas. An empty line is a row with one empty cell; text without any
/// line has no rows.
pub open spec fn table_of(contents: Seq<char>) -> Seq<Seq<Seq<char>>> {
    Seq::new(lines(contents).len(), |i: int| split(lines(contents)[i], ','))
}

/// The rows of `contents` and their cells. Nothing is trimmed or unquoted:
/// a cell is exactly the text between two commas.
pub fn read_rows<'a>(contents: &'a str) -> (rows: Vec<Vec<&'a str>>)
    ensures
        table_texts(rows@) == table_of(contents@),
{
    let found: Vec<&'a str> = lines_of(contents);
    let mut rows: Vec<Vec<&'a str>> = Vec::new();
    let mut i: usize = 0;
    while i < found.len()
        invariant
            i <= found.len(),
            texts(found@) == lines(contents@),
            rows@.len() == i,
            forall|k: int| 0 <= k < i ==> texts((#[trigger] rows@[k])@) == split(found@[k]@, ','),
        decreases found.len() - i,
    {
        let cells: Vec<&'a str> = split_on(found[i], ',');
        rows.push(cells);
        i += 1;
    }
    rows
}

/// A cell is free of what ends it: no cell of a table holds a comma or a
/// line feed, and every row has at least one cell.
pub proof fn lemma_cells_hold_no_separator(contents: Seq<char>)
    ensures
        forall|r: int|
            0 <= r < table_of(contents).len() ==> (#[trigger] table_of(contents)[r]).len() >= 1,
        forall|r: int, c: int|
            0 <= r < table_of(contents).len() && 0 <= c < table_of(contents)[r].len() ==> free_of(
                #[trigger] table_of(contents)[r][c],
                ',',
            ) && free_of(table_of(contents)[r][c], '\n'),
{
    lemma_lines_hold_no_line_feed(contents);
    assert forall|r: int| 0 <= r < table_of(contents).len() implies (#[trigger] table_of(
        contents,
    )[r]).len() >= 1 by {
        lemma_split_joins_back(lines(contents)[r], ',');
    }
    assert forall|r: int, c: int|
        0 <= r < table_of(contents).len() && 0 <= c < table_of(contents)[r].len() implies free_of(
        #[trigger] table_of(contents)[r][c],
        ',',
    ) && free_of(table_of(contents)[r][c], '\n') by {
        let line = lines(contents)[r];
        lemma_split_keeps_out(line, ',', ',');
        lemma_split_keeps_out(line, ',', '\n');
    }
}

} // verus!

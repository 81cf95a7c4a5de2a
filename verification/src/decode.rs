//! Turning the rows of an answer into the values the commands return.
//!
//! A row is a JSON object with one member per column. A row of words
//! that lacks a column, or holds something other than text there, is
//! passed over rather than reported. A count is never made up: an answer
//! that holds none gives none.

use vstd::prelude::*;
use crate::json::{integer, json_integer, json_member, json_text, member, text};
use crate::words::{pairs_of, WordPair};

verus! {

/// The text in column `name` of `row`, if the row has that column and it
/// holds text.
pub open spec fn column_text(row: serde_json::Value, name: Seq<char>) -> Option<Seq<char>> {
    match json_member(row, name) {
        Some(cell) => json_text(cell),
        None => None,
    }
}

/// The integer in column `name` of `row`, if the row has that column and
/// it holds an integer.
pub open spec fn column_integer(row: serde_json::Value, name: Seq<char>) -> Option<i64> {
    match json_member(row, name) {
        Some(cell) => json_integer(cell),
        None => None,
    }
}

/// Whether `row` has the columns `names` and no other.
pub open spec fn has_columns(row: serde_json::Value, names: Set<Seq<char>>) -> bool {
    forall|name: Seq<char>| #[trigger] json_member(row, name) is Some <==> names.contains(name)
}

/// The view of an optional string.
pub open spec fn text_of(value: Option<String>) -> Option<Seq<char>> {
    match value {
        Some(s) => Some(s@),
        None => None,
    }
}

/// The view of an optional word pair.
pub open spec fn pair_of(value: Option<WordPair>) -> Option<(Seq<char>, Seq<char>)> {
    match value {
        Some(w) => Some(w@),
        None => None,
    }
}

/// The pair that two columns make: both must be there.
pub open spec fn word_of_columns(english: Option<Seq<char>>, chinese: Option<Seq<char>>) -> Option<
    (Seq<char>, Seq<char>),
> {
    match (english, chinese) {
        (Some(e), Some(c)) => Some((e, c)),
        _ => None,
    }
}

/// The pair a row of `words` stands for, if it has both columns as text.
pub open spec fn row_word(row: serde_json::Value) -> Option<(Seq<char>, Seq<char>)> {
    word_of_columns(column_text(row, "english"@), column_text(row, "chinese"@))
}

/// The pairs that `rows` stand for, in the order of the rows, leaving out
/// each row that stands for none.
pub open spec fn rows_words(rows: Seq<serde_json::Value>) -> Seq<(Seq<char>, Seq<char>)>
    decreases rows.len(),
{
    if rows.len() == 0 {
        seq![]
    } else {
        match row_word(rows.last()) {
            Some(pair) => rows_words(rows.drop_last()).push(pair),
            None => rows_words(rows.drop_last()),
        }
    }
}

/// The count in the answer to a counting statement: the integer in
/// column `count` of the first row. There is none if there is no row, or
/// no integer there.
pub open spec fn rows_count(rows: Seq<serde_json::Value>) -> Option<i64> {
    if rows.len() == 0 {
        None
    } else {
        column_integer(rows[0], "count"@)
    }
}

/// The setting in the answer to a lookup: column `value` of the first
/// row. Absent if there is no row, or no text there.
pub open spec fn rows_setting(rows: Seq<serde_json::Value>) -> Option<Seq<char>> {
    if rows.len() == 0 {
        None
    } else {
        column_text(rows[0], "value"@)
    }
}

/// Reads column `name` of `row` as text.
pub fn text_column(row: &serde_json::Value, name: &str) -> (found: Option<String>)
    ensures
        text_of(found) == column_text(*row, name@),
{
    match member(row, name) {
        Some(cell) => match text(cell) {
            Some(s) => Some(s.to_owned()),
            None => None,
        },
        None => None,
    }
}

/// Reads column `name` of `row` as an integer.
pub fn integer_column(row: &serde_json::Value, name: &str) -> (found: Option<i64>)
    ensures
        found == column_integer(*row, name@),
{
    match member(row, name) {
        Some(cell) => integer(cell),
        None => None,
    }
}

/// Makes a word pair of the two columns of a row, if both are there.
pub fn word_from_columns(english: Option<String>, chinese: Option<String>) -> (word: Option<
    WordPair,
>)
    ensures
        pair_of(word) == word_of_columns(text_of(english), text_of(chinese)),
{
    match (english, chinese) {
        (Some(english), Some(chinese)) => Some(WordPair { english, chinese }),
        _ => None,
    }
}

/// Decodes one row of `words`.
pub fn word_from_row(row: &serde_json::Value) -> (word: Option<WordPair>)
    ensures
        pair_of(word) == row_word(*row),
{
    word_from_columns(text_column(row, "english"), text_column(row, "chinese"))
}

/// Decodes the answer to `ListWords`: one pair per row that has both
/// columns as text, in the order of the rows.
pub fn words_from_rows(rows: &Vec<serde_json::Value>) -> (words: Vec<WordPair>)
    ensures
        pairs_of(words@) == rows_words(rows@),
{
    let mut words: Vec<WordPair> = Vec::new();
    let mut index: usize = 0;
    assert(rows@.take(0) =~= Seq::empty());
    assert(pairs_of(words@) =~= rows_words(rows@.take(0)));
    while index < rows.len()
        invariant
            index <= rows.len(),
            pairs_of(words@) == rows_words(rows@.take(index as int)),
        decreases rows.len() - index,
    {
        let ghost before = pairs_of(words@);
        proof {
            let next = rows@.take(index + 1);
            assert(next.drop_last() =~= rows@.take(index as int));
            assert(next.last() == rows@[index as int]);
        }
        match word_from_row(&rows[index]) {
            Some(word) => {
                words.push(word);
                assert(pairs_of(words@) =~= before.push(word@));
            },
            None => {},
        }
        index += 1;
    }
    assert(rows@.take(index as int) =~= rows@);
    words
}

/// Decodes the answer to `CountWords`. An answer that holds no count
/// gives none: it is not taken for a count of zero.
pub fn count_from_rows(rows: &Vec<serde_json::Value>) -> (count: Option<i64>)
    ensures
        count == rows_count(rows@),
{
    if rows.len() == 0 {
        None
    } else {
        integer_column(&rows[0], "count")
    }
}

/// Decodes the answer to `LoadSetting`.
pub fn setting_from_rows(rows: &Vec<serde_json::Value>) -> (value: Option<String>)
    ensures
        text_of(value) == rows_setting(rows@),
{
    if rows.len() == 0 {
        None
    } else {
        text_column(&rows[0], "value")
    }
}

} // verus!

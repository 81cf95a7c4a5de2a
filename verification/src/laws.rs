//! What holds of the commands whatever the store holds.

use vstd::prelude::*;
use crate::commands::{asks_for_schema, init_follows, InitState, InitStep, Request};
use crate::decode::{row_word, rows_count, rows_setting, rows_words};
use crate::model::{accepts, after, answers, initialized, lemma_seeded, state_after, Tables};
use crate::order::{lemma_irreflexive, precedes};
use crate::statement::Statement;
use crate::table::{ascending, lemma_listing_unique, listing};
use crate::words::{lemma_seed_keys_distinct, seed_pairs};

verus! {

/// Saving a word again keeps one row for its English term, with the
/// translation saved last: the table is as if only the second save had
/// been made, and any listing of it has exactly one row with that term.
/// Saving the same pair twice is saving it once.
pub proof fn lemma_save_word_again(
    tables: Tables,
    english: String,
    first: String,
    second: String,
    rows: Seq<(Seq<char>, Seq<char>)>,
)
    requires
        listing(
            rows,
            after(
                after(tables, Statement::SaveWord { english, chinese: first }),
                Statement::SaveWord { english, chinese: second },
            ).words,
        ),
    ensures
        accepts(tables, Statement::SaveWord { english, chinese: first }),
        accepts(
            after(tables, Statement::SaveWord { english, chinese: first }),
            Statement::SaveWord { english, chinese: second },
        ),
        after(
            after(tables, Statement::SaveWord { english, chinese: first }),
            Statement::SaveWord { english, chinese: second },
        ) == after(tables, Statement::SaveWord { english, chinese: second }),
        first@ == second@ ==> after(
            after(tables, Statement::SaveWord { english, chinese: first }),
            Statement::SaveWord { english, chinese: second },
        ) == after(tables, Statement::SaveWord { english, chinese: first }),
        exists|i: int|
            0 <= i < rows.len() && #[trigger] rows[i] == (english@, second@) && forall|j: int|
                0 <= j < rows.len() && (#[trigger] rows[j]).0 == english@ ==> j == i,
{
    let once = after(tables, Statement::SaveWord { english, chinese: first });
    let twice = after(once, Statement::SaveWord { english, chinese: second });
    let only = after(tables, Statement::SaveWord { english, chinese: second });
    assert(twice.words =~= only.words);
    if first@ == second@ {
        assert(twice.words =~= once.words);
    }
    assert(twice.words.contains_key(english@));
    let i = choose|i: int| 0 <= i < rows.len() && (#[trigger] rows[i]).0 == english@;
    assert(twice.words.contains_pair(rows[i].0, rows[i].1));
    lemma_irreflexive(english@);
    assert forall|j: int| 0 <= j < rows.len() && (#[trigger] rows[j]).0 == english@ implies j
        == i by {
        if j < i {
            assert(precedes(rows[j].0, rows[i].0));
        } else if i < j {
            assert(precedes(rows[i].0, rows[j].0));
        }
    }
    assert(rows[i] == (english@, second@));
}

/// Storing a setting again keeps one value under its key, the one
/// stored last: the table is as if only the second had been stored.
/// Storing the same value twice is storing it once.
pub proof fn lemma_save_setting_again(tables: Tables, key: String, first: String, second: String)
    ensures
        accepts(tables, Statement::SaveSetting { key, value: first }),
        accepts(
            after(tables, Statement::SaveSetting { key, value: first }),
            Statement::SaveSetting { key, value: second },
        ),
        after(
            after(tables, Statement::SaveSetting { key, value: first }),
            Statement::SaveSetting { key, value: second },
        ) == after(tables, Statement::SaveSetting { key, value: second }),
        first@ == second@ ==> after(
            after(tables, Statement::SaveSetting { key, value: first }),
            Statement::SaveSetting { key, value: second },
        ) == after(tables, Statement::SaveSetting { key, value: first }),
        after(
            after(tables, Statement::SaveSetting { key, value: first }),
            Statement::SaveSetting { key, value: second },
        ).settings.contains_pair(key@, second@),
{
    let once = after(tables, Statement::SaveSetting { key, value: first });
    let twice = after(once, Statement::SaveSetting { key, value: second });
    let only = after(tables, Statement::SaveSetting { key, value: second });
    assert(twice.settings =~= only.settings);
    if first@ == second@ {
        assert(twice.settings =~= once.settings);
    }
}

/// Initialization seeds once: a store whose `words` holds a row is left
/// as it is, and a store that was initialized is such a store, so that a
/// second initialization changes nothing.
pub proof fn lemma_init_db_once(tables: Tables)
    ensures
        tables.words.dom().len() != 0 ==> initialized(tables) == tables,
        initialized(initialized(tables)) == initialized(tables),
{
    lemma_seeded(seed_pairs().len());
    lemma_seed_keys_distinct();
}

/// After the count, initialization asks for a seed pair only when the
/// answer held a count and the count was zero.
pub proof fn lemma_seeds_only_after_zero(rows: Vec<serde_json::Value>, step: InitStep)
    requires
        init_follows(InitState::Counting, Ok(rows), step),
        step is Ask,
    ensures
        rows_count(rows@) == Some(0i64),
{
}

/// Initialization of a store that holds a word sends no insert: when
/// the store has answered the counting statement, initialization is over,
/// with success, and what it has sent until then has left the store as
/// it was.
pub proof fn lemma_init_db_keeps_words(
    tables: Tables,
    schema: Request,
    rows: Vec<serde_json::Value>,
    step: InitStep,
)
    requires
        tables.words.dom().finite(),
        tables.words.dom().len() > 0,
        asks_for_schema(schema),
        answers(tables, Statement::CountWords, rows@),
        init_follows(InitState::Counting, Ok(rows), step),
    ensures
        step matches InitStep::Done(Ok(_)),
        state_after(tables, schema) == tables,
        state_after(tables, Request::Select(Statement::CountWords)) == tables,
{
}

/// Deleting a word that is not there is carried out, and leaves the
/// store as it was.
pub proof fn lemma_delete_absent_word(tables: Tables, english: String)
    requires
        !tables.words.contains_key(english@),
    ensures
        accepts(tables, Statement::DeleteWord { english }),
        after(tables, Statement::DeleteWord { english }) == tables,
{
    assert(tables.words.remove(english@) =~= tables.words);
}

/// Looking up a setting that is not there is answered, with no row, and
/// the lookup makes "absent" of that.
pub proof fn lemma_load_absent_setting(tables: Tables, key: String, rows: Seq<serde_json::Value>)
    requires
        !tables.settings.contains_key(key@),
        answers(tables, Statement::LoadSetting { key }, rows),
    ensures
        accepts(tables, Statement::LoadSetting { key }),
        after(tables, Statement::LoadSetting { key }) == tables,
        rows.len() == 0,
        rows_setting(rows) is None,
{
}

/// Whether the rows that stand for a pair come by ascending English term.
pub open spec fn rows_ascend(rows: Seq<serde_json::Value>) -> bool {
    forall|i: int, j: int|
        0 <= i < j < rows.len() ==> (row_word(#[trigger] rows[i]) matches Some(a) ==> (row_word(
            #[trigger] rows[j],
        ) matches Some(b) ==> precedes(a.0, b.0)))
}

/// Every pair decoded from `rows` is the pair of one of the rows.
pub proof fn lemma_word_has_row(rows: Seq<serde_json::Value>, index: int) -> (at: int)
    requires
        0 <= index < rows_words(rows).len(),
    ensures
        0 <= at < rows.len(),
        row_word(rows[at]) == Some(rows_words(rows)[index]),
    decreases rows.len(),
{
    let rest = rows_words(rows.drop_last());
    if index < rest.len() {
        lemma_word_has_row(rows.drop_last(), index)
    } else {
        rows.len() - 1
    }
}

/// Decoding keeps the order of the rows: rows that come by ascending
/// English term give words by ascending English term, also where rows
/// in between are passed over.
pub proof fn lemma_words_keep_order(rows: Seq<serde_json::Value>)
    requires
        rows_ascend(rows),
    ensures
        ascending(rows_words(rows)),
    decreases rows.len(),
{
    if rows.len() > 0 {
        let front = rows.drop_last();
        assert(rows_ascend(front)) by {
            assert forall|i: int, j: int| 0 <= i < j < front.len() implies (row_word(
                #[trigger] front[i],
            ) matches Some(a) ==> (row_word(#[trigger] front[j]) matches Some(b) ==> precedes(
                a.0,
                b.0,
            ))) by {
                assert(front[i] == rows[i] && front[j] == rows[j]);
            }
        }
        lemma_words_keep_order(front);
        let rest = rows_words(front);
        let words = rows_words(rows);
        assert forall|k: int, l: int| 0 <= k < l < words.len() implies precedes(
            (#[trigger] words[k]).0,
            (#[trigger] words[l]).0,
        ) by {
            if l < rest.len() {
                assert(words[k] == rest[k] && words[l] == rest[l]);
            } else {
                let at = lemma_word_has_row(front, k);
                assert(front[at] == rows[at]);
                assert(row_word(rows[at]) == Some(words[k]));
                assert(row_word(rows[rows.len() - 1]) == Some(words[l]));
            }
        }
    }
}

/// The words are listed by ascending English term: the answer to the
/// listing statement decodes to one word per row, each of them in the
/// table, in ascending order. The table leaves no choice: any two answers
/// decode to the same words.
pub proof fn lemma_words_listed_in_order(
    tables: Tables,
    rows: Seq<serde_json::Value>,
    other: Seq<serde_json::Value>,
)
    requires
        answers(tables, Statement::ListWords, rows),
        answers(tables, Statement::ListWords, other),
    ensures
        ascending(rows_words(rows)),
        rows_words(rows).len() == rows.len(),
        forall|i: int|
            0 <= i < rows.len() ==> tables.words.contains_pair(
                (#[trigger] rows_words(rows)[i]).0,
                rows_words(rows)[i].1,
            ),
        rows_words(other) == rows_words(rows),
{
    lemma_listing_unique(rows_words(rows), rows_words(other), tables.words);
}

} // verus!

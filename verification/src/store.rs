//! A store held in memory that answers requests as the database does.
//! With it the commands can be run, and their effect stated, without a
//! database.

use vstd::prelude::*;
use crate::commands::{
    asks_for_schema,
    asks_for_seed,
    delete_word,
    delete_word_reply,
    init_db,
    init_db_next,
    load_setting,
    load_setting_reply,
    load_words,
    load_words_reply,
    save_setting,
    save_setting_reply,
    save_word,
    save_word_reply,
    InitState,
    InitStep,
    Request,
};
use crate::decode::{column_integer, column_text, has_columns, row_word, text_of};
use crate::json::{integer_value, json_member, names, object_value, text_value};
use crate::model::{
    after,
    answers,
    initialized,
    lemma_rows_words,
    lemma_seeded,
    replies,
    seeded,
    state_after,
    Tables,
};
use crate::schema::is_schema;
use crate::statement::Statement;
use crate::table::{listing, Table};
use crate::words::{lemma_seed_keys_distinct, pairs_of, seed_pairs, WordPair, SEED_COUNT};

verus! {

/// Both tables, held in memory. They exist from the start, as they do in
/// a database once the schema was applied; applying it again changes
/// nothing.
pub struct MemoryStore {
    words: Table,
    settings: Table,
}

impl View for MemoryStore {
    type V = Tables;

    closed spec fn view(&self) -> Tables {
        Tables { words: self.words@, settings: self.settings@ }
    }
}

fn count_row(count: i64) -> (row: serde_json::Value)
    ensures
        has_columns(row, set!["count"@]),
        column_integer(row, "count"@) == Some(count),
{
    let mut fields: Vec<(String, serde_json::Value)> = Vec::new();
    fields.push(("count".to_owned(), integer_value(count)));
    let row = object_value(fields);
    proof {
        assert(fields[0].0@ == "count"@);
        assert forall|name: Seq<char>| #[trigger] json_member(row, name) is Some <==> name
            == "count"@ by {
            if name != "count"@ {
                assert(!names(fields@, name));
            }
        }
    }
    row
}

fn value_row(value: &str) -> (row: serde_json::Value)
    ensures
        has_columns(row, set!["value"@]),
        column_text(row, "value"@) == Some(value@),
{
    let mut fields: Vec<(String, serde_json::Value)> = Vec::new();
    fields.push(("value".to_owned(), text_value(value)));
    let row = object_value(fields);
    proof {
        assert(fields[0].0@ == "value"@);
        assert forall|name: Seq<char>| #[trigger] json_member(row, name) is Some <==> name
            == "value"@ by {
            if name != "value"@ {
                assert(!names(fields@, name));
            }
        }
    }
    row
}

fn word_row(english: &str, chinese: &str) -> (row: serde_json::Value)
    ensures
        has_columns(row, set!["english"@, "chinese"@]),
        row_word(row) == Some((english@, chinese@)),
{
    let mut fields: Vec<(String, serde_json::Value)> = Vec::new();
    fields.push(("english".to_owned(), text_value(english)));
    fields.push(("chinese".to_owned(), text_value(chinese)));
    proof {
        reveal_strlit("english");
        reveal_strlit("chinese");
        assert("english"@[0] != "chinese"@[0]);
    }
    let row = object_value(fields);
    proof {
        assert(fields[0].0@ == "english"@ && fields[1].0@ == "chinese"@);
        assert forall|name: Seq<char>| #[trigger] json_member(row, name) is Some <==> (name
            == "english"@ || name == "chinese"@) by {
            if name != "english"@ && name != "chinese"@ {
                assert(!names(fields@, name));
            }
        }
    }
    row
}

impl MemoryStore {
    /// Each table is well formed.
    pub closed spec fn wf(&self) -> bool {
        self.words.wf() && self.settings.wf()
    }

    /// A well-formed store holds finitely many rows in each table.
    pub proof fn lemma_finite(&self)
        requires
            self.wf(),
        ensures
            self@.words.dom().finite(),
            self@.settings.dom().finite(),
    {
    }

    /// A store whose two tables are empty.
    pub fn new() -> (store: MemoryStore)
        ensures
            store.wf(),
            store@.words == Map::<Seq<char>, Seq<char>>::empty(),
            store@.settings == Map::<Seq<char>, Seq<char>>::empty(),
    {
        MemoryStore { words: Table::new(), settings: Table::new() }
    }

    fn count_words(&self) -> (rows: Vec<serde_json::Value>)
        requires
            self.wf(),
        ensures
            answers(self@, Statement::CountWords, rows@),
    {
        let held = self.words.len();
        let count: i64 = if held as u64 <= i64::MAX as u64 {
            held as i64
        } else {
            i64::MAX
        };
        let mut rows: Vec<serde_json::Value> = Vec::new();
        rows.push(count_row(count));
        rows
    }

    fn list_words(&self) -> (rows: Vec<serde_json::Value>)
        requires
            self.wf(),
        ensures
            answers(self@, Statement::ListWords, rows@),
    {
        let mut rows: Vec<serde_json::Value> = Vec::new();
        let mut index: usize = 0;
        while index < self.words.len()
            invariant
                index <= self.words.entries().len(),
                rows.len() == index,
                forall|i: int|
                    0 <= i < index ==> row_word(#[trigger] rows[i]) == Some(self.words.entries()[i]),
                forall|i: int|
                    0 <= i < index ==> has_columns(
                        #[trigger] rows[i],
                        set!["english"@, "chinese"@],
                    ),
            decreases self.words.entries().len() - index,
        {
            if let Some((english, chinese)) = self.words.row(index) {
                rows.push(word_row(english, chinese));
            }
            index += 1;
        }
        proof {
            lemma_rows_words(rows@, self.words.entries());
        }
        rows
    }

    fn find_setting(&self, key: &str) -> (rows: Vec<serde_json::Value>)
        requires
            self.wf(),
        ensures
            forall|k: String| k@ == key@ ==> answers(self@, Statement::LoadSetting { key: k }, rows@),
    {
        let mut rows: Vec<serde_json::Value> = Vec::new();
        match self.settings.get(key) {
            Some(value) => {
                rows.push(value_row(value));
            },
            None => {},
        }
        rows
    }

    /// Carries out `request` and hands back what the database would: the
    /// rows asked for, no rows, or the reason why an insert was turned
    /// down.
    pub fn answer(&mut self, request: &Request) -> (reply: Result<Vec<serde_json::Value>, String>)
        requires
            old(self).wf(),
        ensures
            final(self).wf(),
            final(self)@ == state_after(old(self)@, *request),
            replies(old(self)@, *request, reply),
    {
        let (statement, wants_rows) = match request {
            Request::Migrate(migrations) => {
                if is_schema(migrations) {
                    return Ok(Vec::new());
                }
                return Err("migrations other than the schema".to_owned());
            },
            Request::Select(statement) => (statement, true),
            Request::Execute(statement) => (statement, false),
        };
        let ghost before = self@;
        match statement {
            Statement::CountWords => {
                if wants_rows {
                    return Ok(self.count_words());
                }
            },
            Statement::ListWords => {
                if wants_rows {
                    return Ok(self.list_words());
                }
            },
            Statement::LoadSetting { key } => {
                if wants_rows {
                    return Ok(self.find_setting(key.as_str()));
                }
            },
            Statement::InsertWord { english, chinese } => {
                if self.words.get(english.as_str()).is_some() {
                    return Err("UNIQUE constraint failed: words.english".to_owned());
                }
                self.words.put(english.clone(), chinese.clone());
            },
            Statement::SaveWord { english, chinese } => {
                self.words.put(english.clone(), chinese.clone());
            },
            Statement::DeleteWord { english } => {
                self.words.remove(english.as_str());
            },
            Statement::SaveSetting { key, value } => {
                self.settings.put(key.clone(), value.clone());
            },
        }
        assert(self@ == after(before, *statement));
        Ok(Vec::new())
    }

    /// Runs initialization to its end: on an empty `words` the seed pairs
    /// are inserted, on any other nothing changes.
    pub fn init_db(&mut self) -> (result: Result<(), String>)
        requires
            old(self).wf(),
        ensures
            final(self).wf(),
            result is Ok,
            final(self)@ == initialized(old(self)@),
    {
        let ghost start = self@;
        let (first_state, first_request) = init_db();
        let mut state = first_state;
        let mut request = first_request;
        loop
            invariant
                self.wf(),
                start == old(self)@,
                init_pending(start, self@, state, request),
            decreases init_steps_left(state),
        {
            proof {
                lemma_seeded(SEED_COUNT as nat);
                if let InitState::Seeding(index) = state {
                    lemma_seeded(index as nat);
                    lemma_seeded((index + 1) as nat);
                    lemma_seed_keys_distinct();
                    if seeded(index as nat).contains_key(seed_pairs()[index as int].0) {
                        let i = choose|i: int|
                            0 <= i < index && (#[trigger] seed_pairs()[i]).0 == seed_pairs()[index as int].0;
                        assert(seed_pairs()[i].0 != seed_pairs()[index as int].0);
                    }
                }
                if self@.words.dom().len() == 0 {
                    self@.words.dom().lemma_len0_is_empty();
                    assert(self@.words =~= Map::empty());
                }
            }
            let reply = self.answer(&request);
            match init_db_next(state, reply) {
                InitStep::Ask(next_state, next_request) => {
                    state = next_state;
                    request = next_request;
                },
                InitStep::Done(result) => {
                    return result;
                },
            }
        }
    }

    /// Lists the words by ascending English term.
    pub fn load_words(&mut self) -> (result: Result<Vec<WordPair>, String>)
        requires
            old(self).wf(),
        ensures
            final(self).wf(),
            final(self)@ == old(self)@,
            result matches Ok(words) && listing(pairs_of(words@), old(self)@.words),
    {
        let reply = self.answer(&load_words());
        load_words_reply(reply)
    }

    /// Saves a word, in place of the one with the same English term.
    pub fn save_word(&mut self, english: String, chinese: String) -> (result: Result<(), String>)
        requires
            old(self).wf(),
        ensures
            final(self).wf(),
            result is Ok,
            final(self)@.words == old(self)@.words.insert(english@, chinese@),
            final(self)@.settings == old(self)@.settings,
    {
        let reply = self.answer(&save_word(english, chinese));
        save_word_reply(reply)
    }

    /// Deletes the word with this English term, if there is one.
    pub fn delete_word(&mut self, english: String) -> (result: Result<(), String>)
        requires
            old(self).wf(),
        ensures
            final(self).wf(),
            result is Ok,
            final(self)@.words == old(self)@.words.remove(english@),
            final(self)@.settings == old(self)@.settings,
    {
        let reply = self.answer(&delete_word(english));
        delete_word_reply(reply)
    }

    /// Looks a setting up: absent when nothing is stored under `key`.
    pub fn load_setting(&mut self, key: String) -> (result: Result<Option<String>, String>)
        requires
            old(self).wf(),
        ensures
            final(self).wf(),
            final(self)@ == old(self)@,
            result matches Ok(value) && text_of(value) == (if old(self)@.settings.contains_key(key@) {
                Some(old(self)@.settings[key@])
            } else {
                None
            }),
    {
        let reply = self.answer(&load_setting(key));
        load_setting_reply(reply)
    }

    /// Stores a setting, in place of the one with the same key.
    pub fn save_setting(&mut self, key: String, value: String) -> (result: Result<(), String>)
        requires
            old(self).wf(),
        ensures
            final(self).wf(),
            result is Ok,
            final(self)@.settings == old(self)@.settings.insert(key@, value@),
            final(self)@.words == old(self)@.words,
    {
        let reply = self.answer(&save_setting(key, value));
        save_setting_reply(reply)
    }
}

/// What holds while initialization, begun on `start`, waits in `state`
/// for the answer to `request`: nothing has changed before the count is
/// in, and after it `words`, empty at the start, holds the seed pairs
/// before the one being inserted.
pub open spec fn init_pending(start: Tables, now: Tables, state: InitState, request: Request) -> bool {
    match state {
        InitState::Migrating => now == start && asks_for_schema(request),
        InitState::Counting => now == start && request == Request::Select(Statement::CountWords),
        InitState::Seeding(index) => {
            &&& index < SEED_COUNT
            &&& asks_for_seed(request, index as int)
            &&& start.words.dom().len() == 0
            &&& now.settings == start.settings
            &&& now.words == seeded(index as nat)
        },
    }
}

/// How many requests initialization may still send from `state` on.
pub open spec fn init_steps_left(state: InitState) -> nat {
    match state {
        InitState::Migrating => (SEED_COUNT + 2) as nat,
        InitState::Counting => (SEED_COUNT + 1) as nat,
        InitState::Seeding(index) => if index < SEED_COUNT {
            (SEED_COUNT - index) as nat
        } else {
            0
        },
    }
}

} // verus!

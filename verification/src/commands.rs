//! The six commands. The library never touches the database: a command
//! says what to ask of it, the caller asks, and the command is told what
//! came back. Five commands take one such turn. Initialization takes
//! several, and keeps its place in an `InitState` between them.

use vstd::prelude::*;
use crate::decode::{
    count_from_rows,
    rows_count,
    rows_setting,
    rows_words,
    setting_from_rows,
    text_of,
    words_from_rows,
};
use crate::failure::Failure;
use crate::schema::{creates_schema, get_migrations, Migration};
use crate::statement::Statement;
use crate::words::{pairs_of, seed_pairs, seed_word, WordPair, SEED_COUNT};

verus! {

/// What a command asks the caller to do with the database.
#[derive(Debug, Clone)]
pub enum Request {
    /// Apply these migrations.
    Migrate(Vec<Migration>),
    /// Run the statement and hand back its rows.
    Select(Statement),
    /// Run the statement; it yields no rows.
    Execute(Statement),
}

/// Where initialization stands while it waits for an answer.
#[derive(Debug, Clone, Copy, PartialEq, Eq)]
pub enum InitState {
    /// The migrations were sent.
    Migrating,
    /// The count of `words` was asked for.
    Counting,
    /// The insert of the seed pair with this index was sent.
    Seeding(usize),
}

/// What initialization does next.
#[derive(Debug)]
pub enum InitStep {
    /// Send the request, then come back in this state with the answer.
    Ask(InitState, Request),
    /// Initialization is over, with this result.
    Done(Result<(), String>),
}

impl InitState {
    /// The step that has failed when an error arrives in this state.
    pub open spec fn failure(self) -> Failure {
        match self {
            InitState::Migrating => Failure::Migration,
            InitState::Counting => Failure::CountWords,
            InitState::Seeding(_) => Failure::InsertSeed,
        }
    }
}

/// Whether `request` is the set of migrations to apply at start-up.
pub open spec fn asks_for_schema(request: Request) -> bool {
    request matches Request::Migrate(migrations) && creates_schema(migrations@)
}

/// Whether `request` is the plain insert of the seed pair at `index`.
pub open spec fn asks_for_seed(request: Request, index: int) -> bool {
    &&& request matches Request::Execute(Statement::InsertWord { english, chinese })
    &&& (english@, chinese@) == seed_pairs()[index]
}

/// Whether `result` is the failure of `step` with the store's `cause`.
pub open spec fn fails_with<T>(result: Result<T, String>, step: Failure, cause: Seq<char>) -> bool {
    result matches Err(message) && message@ == step.prefix() + cause
}

/// What the store's error is said to be when the answer to the counting
/// statement holds no count.
pub open spec fn missing_count() -> Seq<char> {
    "the answer holds no count"@
}

/// The step that follows the count of `words`.
///
/// Only a count of zero is followed by the first seed pair. After any
/// other count initialization is over, and nothing is inserted. Where
/// the answer held no count, nothing is inserted either: the counting
/// has failed.
pub open spec fn count_decides(count: Option<i64>, step: InitStep) -> bool {
    match count {
        Some(rows) => if rows == 0 {
            step matches InitStep::Ask(InitState::Seeding(0), request) && asks_for_seed(request, 0)
        } else {
            step matches InitStep::Done(Ok(_))
        },
        None => step matches InitStep::Done(result) && fails_with(
            result,
            Failure::CountWords,
            missing_count(),
        ),
    }
}

/// The step that follows answer `reply` in state `state`.
///
/// An error ends initialization at once, whatever was inserted before.
/// After the migrations comes the count, and after the count what
/// `count_decides` says; after each seed pair comes the next, and after
/// the last nothing.
pub open spec fn init_follows(
    state: InitState,
    reply: Result<Vec<serde_json::Value>, String>,
    step: InitStep,
) -> bool {
    match reply {
        Err(cause) => step matches InitStep::Done(result) && fails_with(
            result,
            state.failure(),
            cause@,
        ),
        Ok(rows) => match state {
            InitState::Migrating => step matches InitStep::Ask(
                InitState::Counting,
                Request::Select(Statement::CountWords),
            ),
            InitState::Counting => count_decides(rows_count(rows@), step),
            InitState::Seeding(index) => if index < SEED_COUNT - 1 {
                step matches InitStep::Ask(InitState::Seeding(next), request) && next == index + 1
                    && asks_for_seed(request, index + 1)
            } else {
                step matches InitStep::Done(Ok(_))
            },
        },
    }
}

fn insert_seed(index: usize) -> (request: Request)
    requires
        index < SEED_COUNT,
    ensures
        asks_for_seed(request, index as int),
{
    let WordPair { english, chinese } = seed_word(index);
    Request::Execute(Statement::InsertWord { english, chinese })
}

/// Begins initialization: the tables are created first.
pub fn init_db() -> (first: (InitState, Request))
    ensures
        first.0 == InitState::Migrating,
        asks_for_schema(first.1),
{
    (InitState::Migrating, Request::Migrate(get_migrations()))
}

/// Continues initialization with the count of `words`, or with none if
/// the answer held none.
pub fn init_db_counted(count: Option<i64>) -> (step: InitStep)
    ensures
        count_decides(count, step),
{
    match count {
        Some(rows) => if rows == 0 {
            InitStep::Ask(InitState::Seeding(0), insert_seed(0))
        } else {
            InitStep::Done(Ok(()))
        },
        None => InitStep::Done(Err(Failure::CountWords.message("the answer holds no count"))),
    }
}

/// Continues initialization with the answer to the request last sent.
pub fn init_db_next(state: InitState, reply: Result<Vec<serde_json::Value>, String>) -> (step:
    InitStep)
    ensures
        init_follows(state, reply, step),
{
    match reply {
        Err(cause) => {
            let step = match state {
                InitState::Migrating => Failure::Migration,
                InitState::Counting => Failure::CountWords,
                InitState::Seeding(_) => Failure::InsertSeed,
            };
            InitStep::Done(Err(step.message(cause.as_str())))
        },
        Ok(rows) => match state {
            InitState::Migrating => InitStep::Ask(
                InitState::Counting,
                Request::Select(Statement::CountWords),
            ),
            InitState::Counting => init_db_counted(count_from_rows(&rows)),
            InitState::Seeding(index) => if index < SEED_COUNT - 1 {
                InitStep::Ask(InitState::Seeding(index + 1), insert_seed(index + 1))
            } else {
                InitStep::Done(Ok(()))
            },
        },
    }
}

/// Lists the words: every row of `words`, ordered by the English term.
pub fn load_words() -> (request: Request)
    ensures
        request == Request::Select(Statement::ListWords),
{
    Request::Select(Statement::ListWords)
}

/// The words in the answer to `load_words`, in the order of the rows.
pub fn load_words_reply(reply: Result<Vec<serde_json::Value>, String>) -> (result: Result<
    Vec<WordPair>,
    String,
>)
    ensures
        match reply {
            Ok(rows) => result matches Ok(words) && pairs_of(words@) == rows_words(rows@),
            Err(cause) => fails_with(result, Failure::LoadWords, cause@),
        },
{
    match reply {
        Ok(rows) => Ok(words_from_rows(&rows)),
        Err(cause) => Err(Failure::LoadWords.message(cause.as_str())),
    }
}

/// Saves a word: a new row, or the row with the same English term
/// replaced. Empty strings are saved like any other.
pub fn save_word(english: String, chinese: String) -> (request: Request)
    ensures
        request == Request::Execute(Statement::SaveWord { english, chinese }),
{
    Request::Execute(Statement::SaveWord { english, chinese })
}

/// The result of `save_word`.
pub fn save_word_reply(reply: Result<Vec<serde_json::Value>, String>) -> (result: Result<
    (),
    String,
>)
    ensures
        match reply {
            Ok(_) => result is Ok,
            Err(cause) => fails_with(result, Failure::SaveWord, cause@),
        },
{
    match reply {
        Ok(_) => Ok(()),
        Err(cause) => Err(Failure::SaveWord.message(cause.as_str())),
    }
}

/// Deletes the word with this English term, if there is one.
pub fn delete_word(english: String) -> (request: Request)
    ensures
        request == Request::Execute(Statement::DeleteWord { english }),
{
    Request::Execute(Statement::DeleteWord { english })
}

/// The result of `delete_word`.
pub fn delete_word_reply(reply: Result<Vec<serde_json::Value>, String>) -> (result: Result<
    (),
    String,
>)
    ensures
        match reply {
            Ok(_) => result is Ok,
            Err(cause) => fails_with(result, Failure::DeleteWord, cause@),
        },
{
    match reply {
        Ok(_) => Ok(()),
        Err(cause) => Err(Failure::DeleteWord.message(cause.as_str())),
    }
}

/// Looks up the setting stored under `key`.
pub fn load_setting(key: String) -> (request: Request)
    ensures
        request == Request::Select(Statement::LoadSetting { key }),
{
    Request::Select(Statement::LoadSetting { key })
}

/// The setting in the answer to `load_setting`: absent when no row came
/// back, which is no error.
pub fn load_setting_reply(reply: Result<Vec<serde_json::Value>, String>) -> (result: Result<
    Option<String>,
    String,
>)
    ensures
        match reply {
            Ok(rows) => result matches Ok(value) && text_of(value) == rows_setting(rows@),
            Err(cause) => fails_with(result, Failure::LoadSetting, cause@),
        },
{
    match reply {
        Ok(rows) => Ok(setting_from_rows(&rows)),
        Err(cause) => Err(Failure::LoadSetting.message(cause.as_str())),
    }
}

/// Stores `value` under `key`: a new row, or the row with the same key
/// replaced.
pub fn save_setting(key: String, value: String) -> (request: Request)
    ensures
        request == Request::Execute(Statement::SaveSetting { key, value }),
{
    Request::Execute(Statement::SaveSetting { key, value })
}

/// The result of `save_setting`.
pub fn save_setting_reply(reply: Result<Vec<serde_json::Value>, String>) -> (result: Result<
    (),
    String,
>)
    ensures
        match reply {
            Ok(_) => result is Ok,
            Err(cause) => fails_with(result, Failure::SaveSetting, cause@),
        },
{
    match reply {
        Ok(_) => Ok(()),
        Err(cause) => Err(Failure::SaveSetting.message(cause.as_str())),
    }
}

} // verus!

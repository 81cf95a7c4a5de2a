//! What the statements mean to a store in working order: the two tables
//! as maps, what each statement does to them, and which rows answer it.

use vstd::prelude::*;
use crate::commands::Request;
use crate::schema::creates_schema;
use crate::decode::{column_integer, column_text, has_columns, row_word, rows_words};
use crate::statement::Statement;
use crate::table::listing;
use crate::words::{lemma_seed_keys_distinct, seed_pairs};

verus! {

/// The contents of the store: for each table, the value under each key.
pub struct Tables {
    /// `words`: the Chinese translation under each English term.
    pub words: Map<Seq<char>, Seq<char>>,
    /// `settings`: the value under each key.
    pub settings: Map<Seq<char>, Seq<char>>,
}

/// Whether the store carries out `statement`. Only a plain insert can be
/// turned down: when its key is already there.
pub open spec fn accepts(tables: Tables, statement: Statement) -> bool {
    statement matches Statement::InsertWord { english, .. } ==> !tables.words.contains_key(english@)
}

/// The store after `statement`. A statement that is turned down, and one
/// that only reads, leave it as it was.
pub open spec fn after(tables: Tables, statement: Statement) -> Tables {
    match statement {
        Statement::InsertWord { english, chinese } => if tables.words.contains_key(english@) {
            tables
        } else {
            Tables { words: tables.words.insert(english@, chinese@), ..tables }
        },
        Statement::SaveWord { english, chinese } => Tables {
            words: tables.words.insert(english@, chinese@),
            ..tables
        },
        Statement::DeleteWord { english } => Tables { words: tables.words.remove(english@), ..tables },
        Statement::SaveSetting { key, value } => Tables {
            settings: tables.settings.insert(key@, value@),
            ..tables
        },
        _ => tables,
    }
}

/// A row count as the store reports it.
pub open spec fn reported_count(rows: nat) -> i64 {
    if rows <= i64::MAX {
        rows as i64
    } else {
        i64::MAX
    }
}

/// Whether `rows` is the answer to `statement`, asked for its rows.
///
/// The count comes as one row with the integer in column `count`. The
/// words come one row each, by ascending English term, with both columns
/// as text. A setting comes as one row with its text in column `value`,
/// and as no row when the key is not there. No row has a column that was
/// not asked for. A statement that only writes yields no rows.
pub open spec fn answers(tables: Tables, statement: Statement, rows: Seq<serde_json::Value>) -> bool {
    match statement {
        Statement::CountWords => {
            &&& rows.len() == 1
            &&& has_columns(rows[0], set!["count"@])
            &&& column_integer(rows[0], "count"@) == Some(reported_count(tables.words.dom().len()))
        },
        Statement::ListWords => {
            &&& rows_words(rows).len() == rows.len()
            &&& listing(rows_words(rows), tables.words)
            &&& forall|i: int|
                0 <= i < rows.len() ==> has_columns(#[trigger] rows[i], set!["english"@, "chinese"@])
        },
        Statement::LoadSetting { key } => if tables.settings.contains_key(key@) {
            &&& rows.len() == 1
            &&& has_columns(rows[0], set!["value"@])
            &&& column_text(rows[0], "value"@) == Some(tables.settings[key@])
        } else {
            rows.len() == 0
        },
        _ => rows.len() == 0,
    }
}

/// What the store says when it turns a plain insert down.
pub open spec fn rejection() -> Seq<char> {
    "UNIQUE constraint failed: words.english"@
}

/// What the store says when it is handed migrations other than the
/// schema. It knows no other, and cannot tell what they would do.
pub open spec fn unknown_migrations() -> Seq<char> {
    "migrations other than the schema"@
}

/// The store after `request`. The schema, which creates a table only if
/// it is not there, leaves the tables it finds as they are.
pub open spec fn state_after(tables: Tables, request: Request) -> Tables {
    match request {
        Request::Migrate(_) => tables,
        Request::Select(statement) => after(tables, statement),
        Request::Execute(statement) => after(tables, statement),
    }
}

/// Whether `reply` is what the store hands back for `request`.
pub open spec fn replies(
    tables: Tables,
    request: Request,
    reply: Result<Vec<serde_json::Value>, String>,
) -> bool {
    match request {
        Request::Migrate(migrations) => if creates_schema(migrations@) {
            reply matches Ok(rows) && rows@.len() == 0
        } else {
            reply matches Err(message) && message@ == unknown_migrations()
        },
        Request::Select(statement) => if accepts(tables, statement) {
            reply matches Ok(rows) && answers(tables, statement, rows@)
        } else {
            reply matches Err(message) && message@ == rejection()
        },
        Request::Execute(statement) => if accepts(tables, statement) {
            reply matches Ok(rows) && rows@.len() == 0
        } else {
            reply matches Err(message) && message@ == rejection()
        },
    }
}

/// `words` after the first `count` seed pairs were inserted into an
/// empty table.
pub open spec fn seeded(count: nat) -> Map<Seq<char>, Seq<char>>
    decreases count,
{
    if count == 0 {
        Map::empty()
    } else {
        let pair = seed_pairs()[count - 1];
        seeded((count - 1) as nat).insert(pair.0, pair.1)
    }
}

/// The store after initialization: given the seed pairs if `words` was
/// empty, and untouched if it held any row.
pub open spec fn initialized(tables: Tables) -> Tables {
    if tables.words.dom().len() == 0 {
        Tables { words: seeded(seed_pairs().len()), ..tables }
    } else {
        tables
    }
}

/// Rows that each stand for a pair stand, together, for those pairs.
pub proof fn lemma_rows_words(rows: Seq<serde_json::Value>, pairs: Seq<(Seq<char>, Seq<char>)>)
    requires
        rows.len() == pairs.len(),
        forall|i: int| 0 <= i < rows.len() ==> row_word(#[trigger] rows[i]) == Some(pairs[i]),
    ensures
        rows_words(rows) == pairs,
    decreases rows.len(),
{
    if rows.len() == 0 {
        assert(pairs =~= seq![]);
    } else {
        lemma_rows_words(rows.drop_last(), pairs.drop_last());
        assert(pairs =~= pairs.drop_last().push(pairs.last()));
    }
}

/// The first `count` seed pairs are in `seeded(count)`, and nothing else.
pub proof fn lemma_seeded(count: nat)
    requires
        count <= seed_pairs().len(),
    ensures
        seeded(count).dom().finite(),
        seeded(count).dom().len() == count,
        forall|key: Seq<char>| #[trigger]
            seeded(count).contains_key(key) <==> exists|i: int|
                0 <= i < count && (#[trigger] seed_pairs()[i]).0 == key,
        forall|i: int|
            0 <= i < count ==> seeded(count).contains_pair(
                (#[trigger] seed_pairs()[i]).0,
                seed_pairs()[i].1,
            ),
    decreases count,
{
    if count > 0 {
        let less = (count - 1) as nat;
        lemma_seeded(less);
        lemma_seed_keys_distinct();
        let pair = seed_pairs()[count - 1];
        assert(!seeded(less).contains_key(pair.0)) by {
            if seeded(less).contains_key(pair.0) {
                let i = choose|i: int| 0 <= i < less && (#[trigger] seed_pairs()[i]).0 == pair.0;
                assert(seed_pairs()[i].0 != seed_pairs()[count - 1].0);
            }
        }
        assert forall|key: Seq<char>| #[trigger] seeded(count).contains_key(key) implies exists|
            i: int,
        | 0 <= i < count && (#[trigger] seed_pairs()[i]).0 == key by {
            if key == pair.0 {
                assert(seed_pairs()[count - 1].0 == key);
            } else {
                assert(seeded(less).contains_key(key));
                let i = choose|i: int| 0 <= i < less && (#[trigger] seed_pairs()[i]).0 == key;
                assert(seed_pairs()[i].0 == key);
            }
        }
        assert forall|i: int| 0 <= i < count implies seeded(count).contains_pair(
            (#[trigger] seed_pairs()[i]).0,
            seed_pairs()[i].1,
        ) by {
            if i < less {
                assert(seeded(less).contains_pair(seed_pairs()[i].0, seed_pairs()[i].1));
                assert(seed_pairs()[i].0 != seed_pairs()[count - 1].0);
            }
        }
    }
}

} // verus!

//! The statements the commands send to the database.

use vstd::prelude::*;

verus! {

/// One parameterized statement. Each command sends exactly one, except
/// initialization, which counts the words and then inserts the seed pairs
/// one statement at a time.
#[derive(Debug, Clone, PartialEq, Eq)]
pub enum Statement {
    /// How many rows `words` holds, in a column named `count`.
    CountWords,
    /// A plain insert into `words`: it fails if the English term is there.
    InsertWord { english: String, chinese: String },
    /// Every row of `words`, ordered by the English term.
    ListWords,
    /// Insert into `words`, or replace the row with the same English term.
    SaveWord { english: String, chinese: String },
    /// Remove the row of `words` with this English term, if there is one.
    DeleteWord { english: String },
    /// The value stored in `settings` under this key.
    LoadSetting { key: String },
    /// Insert into `settings`, or replace the row with the same key.
    SaveSetting { key: String, value: String },
}

/// The views of a sequence of strings, in the same order.
pub open spec fn texts_of(strings: Seq<String>) -> Seq<Seq<char>> {
    Seq::new(strings.len(), |i: int| strings[i]@)
}

impl Statement {
    /// The SQL text, with `$1`, `$2` where the parameters go.
    pub open spec fn sql_text(self) -> Seq<char> {
        match self {
            Statement::CountWords => "SELECT COUNT(*) as count FROM words"@,
            Statement::InsertWord { .. } => "INSERT INTO words (english, chinese) VALUES ($1, $2)"@,
            Statement::ListWords => "SELECT english, chinese FROM words ORDER BY english"@,
            Statement::SaveWord { .. } => "INSERT OR REPLACE INTO words (english, chinese) VALUES ($1, $2)"@,
            Statement::DeleteWord { .. } => "DELETE FROM words WHERE english = $1"@,
            Statement::LoadSetting { .. } => "SELECT value FROM settings WHERE key = $1"@,
            Statement::SaveSetting { .. } => "INSERT OR REPLACE INTO settings (key, value) VALUES ($1, $2)"@,
        }
    }

    /// The values bound to `$1`, `$2`, in that order.
    pub open spec fn bound_values(self) -> Seq<Seq<char>> {
        match self {
            Statement::CountWords => seq![],
            Statement::InsertWord { english, chinese } => seq![english@, chinese@],
            Statement::ListWords => seq![],
            Statement::SaveWord { english, chinese } => seq![english@, chinese@],
            Statement::DeleteWord { english } => seq![english@],
            Statement::LoadSetting { key } => seq![key@],
            Statement::SaveSetting { key, value } => seq![key@, value@],
        }
    }

    pub fn sql(&self) -> (text: &'static str)
        ensures
            text@ == self.sql_text(),
    {
        match self {
            Statement::CountWords => "SELECT COUNT(*) as count FROM words",
            Statement::InsertWord { .. } => "INSERT INTO words (english, chinese) VALUES ($1, $2)",
            Statement::ListWords => "SELECT english, chinese FROM words ORDER BY english",
            Statement::SaveWord { .. } => "INSERT OR REPLACE INTO words (english, chinese) VALUES ($1, $2)",
            Statement::DeleteWord { .. } => "DELETE FROM words WHERE english = $1",
            Statement::LoadSetting { .. } => "SELECT value FROM settings WHERE key = $1",
            Statement::SaveSetting { .. } => "INSERT OR REPLACE INTO settings (key, value) VALUES ($1, $2)",
        }
    }

    pub fn params(&self) -> (values: Vec<String>)
        ensures
            texts_of(values@) == self.bound_values(),
    {
        let mut values: Vec<String> = Vec::new();
        match self {
            Statement::CountWords => {},
            Statement::InsertWord { english, chinese } => {
                values.push(english.clone());
                values.push(chinese.clone());
            },
            Statement::ListWords => {},
            Statement::SaveWord { english, chinese } => {
                values.push(english.clone());
                values.push(chinese.clone());
            },
            Statement::DeleteWord { english } => {
                values.push(english.clone());
            },
            Statement::LoadSetting { key } => {
                values.push(key.clone());
            },
            Statement::SaveSetting { key, value } => {
                values.push(key.clone());
                values.push(value.clone());
            },
        }
        assert(texts_of(values@) =~= self.bound_values());
        values
    }
}

} // verus!

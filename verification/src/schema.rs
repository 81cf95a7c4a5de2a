//! The two tables, and the migration that creates them.

use vstd::prelude::*;
use crate::order::str_same;

verus! {

/// Whether a migration is applied when moving forward or when rolling back.
#[derive(Debug, Clone, Copy, PartialEq, Eq)]
pub enum MigrationKind {
    Up,
    Down,
}

/// One step of the schema's history, as the database layer takes it.
#[derive(Debug, Clone)]
pub struct Migration {
    pub version: i64,
    pub description: &'static str,
    pub sql: &'static str,
    pub kind: MigrationKind,
}

/// What the first migration is called.
pub open spec fn schema_description() -> Seq<char> {
    "create_words_and_settings_tables"@
}

/// The text that creates both tables, each only if it is not there yet.
pub open spec fn schema_sql() -> Seq<char> {
    "CREATE TABLE IF NOT EXISTS words (english TEXT PRIMARY KEY, chinese TEXT); CREATE TABLE IF NOT EXISTS settings (key TEXT PRIMARY KEY, value TEXT);"@
}

/// Whether `migrations` is the schema: a single forward step, version
/// 1, that creates `words` and `settings`.
pub open spec fn creates_schema(migrations: Seq<Migration>) -> bool {
    &&& migrations.len() == 1
    &&& migrations[0].version == 1
    &&& migrations[0].description@ == schema_description()
    &&& migrations[0].sql@ == schema_sql()
    &&& migrations[0].kind == MigrationKind::Up
}

/// The migrations to apply at start-up.
pub fn get_migrations() -> (migrations: Vec<Migration>)
    ensures
        creates_schema(migrations@),
{
    let mut migrations: Vec<Migration> = Vec::new();
    migrations.push(
        Migration {
            version: 1,
            description: "create_words_and_settings_tables",
            sql: "CREATE TABLE IF NOT EXISTS words (english TEXT PRIMARY KEY, chinese TEXT); CREATE TABLE IF NOT EXISTS settings (key TEXT PRIMARY KEY, value TEXT);",
            kind: MigrationKind::Up,
        },
    );
    migrations
}

/// Tells whether `migrations` is the schema.
pub fn is_schema(migrations: &Vec<Migration>) -> (yes: bool)
    ensures
        yes == creates_schema(migrations@),
{
    if migrations.len() != 1 {
        return false;
    }
    let only = &migrations[0];
    let forward = match only.kind {
        MigrationKind::Up => true,
        MigrationKind::Down => false,
    };
    forward && only.version == 1 && str_same(
        only.description,
        "create_words_and_settings_tables",
    ) && str_same(
        only.sql,
        "CREATE TABLE IF NOT EXISTS words (english TEXT PRIMARY KEY, chinese TEXT); CREATE TABLE IF NOT EXISTS settings (key TEXT PRIMARY KEY, value TEXT);",
    )
}

} // verus!

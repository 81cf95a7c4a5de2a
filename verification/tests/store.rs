use serde_json::Value;
use wordbook::commands::{init_db, init_db_next, InitStep, Request};
use wordbook::schema::{get_migrations, MigrationKind};
use wordbook::order::str_precedes;
use wordbook::statement::Statement;
use wordbook::store::MemoryStore;
use wordbook::table::Table;
use wordbook::words::WordPair;

fn pair(english: &str, chinese: &str) -> WordPair {
    WordPair { english: english.to_string(), chinese: chinese.to_string() }
}

fn sorted_seeds() -> Vec<WordPair> {
    vec![
        pair("apple", "苹果"),
        pair("banana", "香蕉"),
        pair("book", "书"),
        pair("cat", "猫"),
        pair("computer", "电脑"),
        pair("dog", "狗"),
        pair("hello", "你好"),
        pair("moon", "月亮"),
        pair("sun", "太阳"),
        pair("world", "世界"),
    ]
}

#[test]
fn text_is_ordered_by_its_bytes() {
    let samples = [
        "", "a", "A", "ab", "abc", "b", "apple", "dog", "zebra", "Zebra", "é", "z", "你好", "世界",
        "猫", "a猫", "\u{10348}", "\u{ffff}", "~",
    ];
    for a in samples {
        for b in samples {
            assert_eq!(str_precedes(a, b), a < b, "{:?} before {:?}", a, b);
        }
    }
    assert!(str_precedes("apple", "dog"));
    assert!(!str_precedes("dog", "apple"));
    assert!(!str_precedes("dog", "dog"));
    assert!(str_precedes("do", "dog"));
    assert!(str_precedes("", "a"));
}

#[test]
fn a_table_keeps_one_row_per_key_in_order() {
    let mut table = Table::new();
    assert_eq!(table.len(), 0);
    assert_eq!(table.get("dog"), None);
    table.put("dog".to_string(), "狗".to_string());
    table.put("apple".to_string(), "苹果".to_string());
    table.put("zebra".to_string(), "斑马".to_string());
    table.put("dog".to_string(), "犬".to_string());
    assert_eq!(table.len(), 3);
    assert_eq!(table.row(0), Some(("apple", "苹果")));
    assert_eq!(table.row(1), Some(("dog", "犬")));
    assert_eq!(table.row(2), Some(("zebra", "斑马")));
    assert_eq!(table.row(3), None);
    assert_eq!(table.get("dog"), Some("犬"));
    assert_eq!(table.get("cat"), None);
    table.remove("cat");
    assert_eq!(table.len(), 3);
    table.remove("dog");
    assert_eq!(table.len(), 2);
    assert_eq!(table.get("dog"), None);
    assert_eq!(table.row(0), Some(("apple", "苹果")));
    assert_eq!(table.row(1), Some(("zebra", "斑马")));
    assert_eq!(table.row(usize::MAX), None);
}

#[test]
fn saving_a_word_twice_keeps_one_row_with_the_second_values() {
    let mut store = MemoryStore::new();
    assert_eq!(store.save_word("dog".to_string(), "狗".to_string()), Ok(()));
    assert_eq!(store.save_word("dog".to_string(), "狗".to_string()), Ok(()));
    assert_eq!(store.load_words(), Ok(vec![pair("dog", "狗")]));
    assert_eq!(store.save_word("dog".to_string(), "犬".to_string()), Ok(()));
    assert_eq!(store.load_words(), Ok(vec![pair("dog", "犬")]));
}

#[test]
fn saving_a_setting_twice_keeps_the_second_value() {
    let mut store = MemoryStore::new();
    assert_eq!(store.save_setting("lang".to_string(), "zh".to_string()), Ok(()));
    assert_eq!(store.save_setting("lang".to_string(), "zh".to_string()), Ok(()));
    assert_eq!(store.load_setting("lang".to_string()), Ok(Some("zh".to_string())));
    assert_eq!(store.save_setting("lang".to_string(), "en".to_string()), Ok(()));
    assert_eq!(store.load_setting("lang".to_string()), Ok(Some("en".to_string())));
    assert_eq!(store.load_words(), Ok(Vec::new()));
}

#[test]
fn initializing_twice_seeds_once() {
    let mut store = MemoryStore::new();
    assert_eq!(store.init_db(), Ok(()));
    assert_eq!(store.load_words(), Ok(sorted_seeds()));
    assert_eq!(store.init_db(), Ok(()));
    assert_eq!(store.load_words(), Ok(sorted_seeds()));
}

#[test]
fn initializing_a_store_with_words_adds_nothing() {
    let mut store = MemoryStore::new();
    assert_eq!(store.save_word("zebra".to_string(), "斑马".to_string()), Ok(()));
    assert_eq!(store.init_db(), Ok(()));
    assert_eq!(store.load_words(), Ok(vec![pair("zebra", "斑马")]));
}

#[test]
fn deleting_a_word_that_is_not_there_changes_nothing() {
    let mut store = MemoryStore::new();
    assert_eq!(store.init_db(), Ok(()));
    assert_eq!(store.delete_word("zebra".to_string()), Ok(()));
    assert_eq!(store.load_words(), Ok(sorted_seeds()));
    let mut empty = MemoryStore::new();
    assert_eq!(empty.delete_word("zebra".to_string()), Ok(()));
    assert_eq!(empty.load_words(), Ok(Vec::new()));
}

#[test]
fn a_setting_that_is_not_there_is_absent() {
    let mut store = MemoryStore::new();
    assert_eq!(store.load_setting("missing".to_string()), Ok(None));
    assert_eq!(store.save_setting("lang".to_string(), "zh".to_string()), Ok(()));
    assert_eq!(store.load_setting("missing".to_string()), Ok(None));
    assert_eq!(store.load_setting("".to_string()), Ok(None));
}

#[test]
fn words_are_listed_by_english() {
    let mut store = MemoryStore::new();
    assert_eq!(store.save_word("dog".to_string(), "狗".to_string()), Ok(()));
    assert_eq!(store.save_word("apple".to_string(), "苹果".to_string()), Ok(()));
    assert_eq!(store.load_words(), Ok(vec![pair("apple", "苹果"), pair("dog", "狗")]));
}

#[test]
fn empty_strings_are_saved_like_any_other() {
    let mut store = MemoryStore::new();
    assert_eq!(store.save_word(String::new(), String::new()), Ok(()));
    assert_eq!(store.save_word("a".to_string(), String::new()), Ok(()));
    assert_eq!(store.load_words(), Ok(vec![pair("", ""), pair("a", "")]));
}

#[test]
fn the_whole_scenario_in_memory() {
    let mut store = MemoryStore::new();
    assert_eq!(store.init_db(), Ok(()));
    let words = store.load_words().unwrap();
    assert_eq!(words.len(), 10);
    assert_eq!(words[0], pair("apple", "苹果"));
    assert_eq!(words, sorted_seeds());
    assert_eq!(store.save_word("zebra".to_string(), "斑马".to_string()), Ok(()));
    let words = store.load_words().unwrap();
    assert_eq!(words.len(), 11);
    assert_eq!(words[10], pair("zebra", "斑马"));
    assert_eq!(store.delete_word("zebra".to_string()), Ok(()));
    assert_eq!(store.load_words(), Ok(sorted_seeds()));
    assert_eq!(store.save_setting("lang".to_string(), "zh".to_string()), Ok(()));
    assert_eq!(store.load_setting("lang".to_string()), Ok(Some("zh".to_string())));
    assert_eq!(store.load_setting("missing".to_string()), Ok(None));
}

#[test]
fn the_store_answers_with_rows_of_named_columns() {
    let mut store = MemoryStore::new();
    let count = store.answer(&Request::Select(Statement::CountWords)).unwrap();
    assert_eq!(count, vec![Value::from_iter(vec![("count", Value::from(0i64))])]);
    store.answer(&Request::Execute(Statement::SaveWord {
        english: "dog".to_string(),
        chinese: "狗".to_string(),
    }))
    .unwrap();
    store.answer(&Request::Execute(Statement::SaveSetting {
        key: "lang".to_string(),
        value: "zh".to_string(),
    }))
    .unwrap();
    let count = store.answer(&Request::Select(Statement::CountWords)).unwrap();
    assert_eq!(count, vec![Value::from_iter(vec![("count", Value::from(1i64))])]);
    let words = store.answer(&Request::Select(Statement::ListWords)).unwrap();
    assert_eq!(
        words,
        vec![Value::from_iter(vec![("english", Value::from("dog")), ("chinese", Value::from("狗"))])]
    );
    let value =
        store.answer(&Request::Select(Statement::LoadSetting { key: "lang".to_string() })).unwrap();
    assert_eq!(value, vec![Value::from_iter(vec![("value", Value::from("zh"))])]);
    let none =
        store.answer(&Request::Select(Statement::LoadSetting { key: "none".to_string() })).unwrap();
    assert_eq!(none, Vec::<Value>::new());
    assert_eq!(store.answer(&Request::Execute(Statement::ListWords)), Ok(Vec::new()));
}

#[test]
fn applying_the_schema_again_leaves_the_rows() {
    let mut store = MemoryStore::new();
    assert_eq!(store.answer(&Request::Migrate(get_migrations())), Ok(Vec::new()));
    assert_eq!(store.save_word("dog".to_string(), "狗".to_string()), Ok(()));
    assert_eq!(store.save_setting("lang".to_string(), "zh".to_string()), Ok(()));
    assert_eq!(store.answer(&Request::Migrate(get_migrations())), Ok(Vec::new()));
    assert_eq!(store.load_words(), Ok(vec![pair("dog", "狗")]));
    assert_eq!(store.load_setting("lang".to_string()), Ok(Some("zh".to_string())));
}

#[test]
fn migrations_other_than_the_schema_are_turned_down() {
    let mut store = MemoryStore::new();
    assert_eq!(store.save_word("dog".to_string(), "狗".to_string()), Ok(()));
    let mut dropping = get_migrations();
    dropping[0].sql = "DROP TABLE words;";
    let mut backwards = get_migrations();
    backwards[0].kind = MigrationKind::Down;
    for migrations in [Vec::new(), dropping, backwards] {
        assert_eq!(
            store.answer(&Request::Migrate(migrations)),
            Err("migrations other than the schema".to_string())
        );
    }
    assert_eq!(store.load_words(), Ok(vec![pair("dog", "狗")]));
}

#[test]
fn an_answer_without_a_count_never_seeds_a_store_with_words() {
    for rows in [Vec::new(), vec![Value::from_iter(vec![("total", Value::from(0i64))])]] {
        let mut store = MemoryStore::new();
        assert_eq!(store.save_word("zebra".to_string(), "斑马".to_string()), Ok(()));
        let (mut state, mut request) = init_db();
        let result = loop {
            let reply = match &request {
                Request::Select(Statement::CountWords) => Ok(rows.clone()),
                other => store.answer(other),
            };
            match init_db_next(state, reply) {
                InitStep::Ask(next, ask) => {
                    state = next;
                    request = ask;
                }
                InitStep::Done(result) => break result,
            }
        };
        assert_eq!(result, Err("查询单词数量失败: the answer holds no count".to_string()));
        assert_eq!(store.load_words(), Ok(vec![pair("zebra", "斑马")]));
    }
}

#[test]
fn a_plain_insert_of_a_word_that_is_there_is_turned_down() {
    let mut store = MemoryStore::new();
    let insert = Request::Execute(Statement::InsertWord {
        english: "dog".to_string(),
        chinese: "狗".to_string(),
    });
    assert_eq!(store.answer(&insert), Ok(Vec::new()));
    let again = Request::Execute(Statement::InsertWord {
        english: "dog".to_string(),
        chinese: "犬".to_string(),
    });
    assert_eq!(
        store.answer(&again),
        Err("UNIQUE constraint failed: words.english".to_string())
    );
    assert_eq!(store.load_words(), Ok(vec![pair("dog", "狗")]));
}

#[test]
fn a_failed_seed_insert_ends_initialization_and_keeps_what_was_inserted() {
    let mut store = MemoryStore::new();
    let (mut state, mut request) = init_db();
    let mut sent = 0;
    let result = loop {
        let reply = if sent == 5 { Err("disk full".to_string()) } else { store.answer(&request) };
        sent += 1;
        match init_db_next(state, reply) {
            InitStep::Ask(next, ask) => {
                state = next;
                request = ask;
            }
            InitStep::Done(result) => break result,
        }
    };
    assert_eq!(result, Err("插入默认单词失败: disk full".to_string()));
    assert_eq!(
        store.load_words(),
        Ok(vec![pair("apple", "苹果"), pair("hello", "你好"), pair("world", "世界")])
    );
}

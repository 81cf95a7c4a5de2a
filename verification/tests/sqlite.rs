use rusqlite::types::ValueRef;
use rusqlite::{params_from_iter, Connection};
use serde_json::Value;
use wordbook::commands::{
    delete_word, delete_word_reply, init_db, init_db_next, load_setting, load_setting_reply,
    load_words, load_words_reply, save_setting, save_setting_reply, save_word, save_word_reply,
    InitStep, Request,
};
use wordbook::statement::Statement;
use wordbook::store::MemoryStore;
use wordbook::words::WordPair;

fn select(conn: &Connection, statement: &Statement) -> Result<Vec<Value>, String> {
    let mut prepared = conn.prepare(statement.sql()).map_err(|e| e.to_string())?;
    let names: Vec<String> = prepared.column_names().iter().map(|n| n.to_string()).collect();
    let mut rows = prepared.query(params_from_iter(statement.params())).map_err(|e| e.to_string())?;
    let mut found = Vec::new();
    while let Some(row) = rows.next().map_err(|e| e.to_string())? {
        let mut fields: Vec<(String, Value)> = Vec::new();
        for (index, name) in names.iter().enumerate() {
            let cell = match row.get_ref(index).map_err(|e| e.to_string())? {
                ValueRef::Null => Value::Null,
                ValueRef::Integer(n) => Value::from(n),
                ValueRef::Real(x) => Value::from(x),
                ValueRef::Text(t) => Value::from(String::from_utf8_lossy(t).into_owned()),
                ValueRef::Blob(_) => Value::Null,
            };
            fields.push((name.clone(), cell));
        }
        found.push(Value::from_iter(fields));
    }
    Ok(found)
}

fn ask(conn: &Connection, request: &Request) -> Result<Vec<Value>, String> {
    match request {
        Request::Migrate(migrations) => {
            for migration in migrations {
                conn.execute_batch(migration.sql).map_err(|e| e.to_string())?;
            }
            Ok(Vec::new())
        }
        Request::Select(statement) => select(conn, statement),
        Request::Execute(statement) => {
            conn.execute(statement.sql(), params_from_iter(statement.params()))
                .map_err(|e| e.to_string())?;
            Ok(Vec::new())
        }
    }
}

fn initialize(conn: &Connection) -> Result<(), String> {
    let (mut state, mut request) = init_db();
    loop {
        match init_db_next(state, ask(conn, &request)) {
            InitStep::Ask(next, following) => {
                state = next;
                request = following;
            }
            InitStep::Done(result) => return result,
        }
    }
}

fn words(conn: &Connection) -> Vec<WordPair> {
    load_words_reply(ask(conn, &load_words())).unwrap()
}

fn pair(english: &str, chinese: &str) -> WordPair {
    WordPair { english: english.to_string(), chinese: chinese.to_string() }
}

fn sorted_seeds() -> Vec<WordPair> {
    vec![
        pair("apple", "苹果"),
        pair("banana", "香蕉"),
        pair("book", "书"),
        pair("cat", "猫"),
        pair("computer", "电脑"),
        pair("dog", "狗"),
        pair("hello", "你好"),
        pair("moon", "月亮"),
        pair("sun", "太阳"),
        pair("world", "世界"),
    ]
}

fn open() -> Connection {
    let conn = Connection::open_in_memory().unwrap();
    ask(&conn, &init_db().1).unwrap();
    conn
}

#[test]
fn sqlite_takes_the_migrations_twice() {
    let conn = Connection::open_in_memory().unwrap();
    assert_eq!(ask(&conn, &init_db().1), Ok(Vec::new()));
    assert_eq!(ask(&conn, &init_db().1), Ok(Vec::new()));
    assert_eq!(words(&conn), Vec::new());
    assert_eq!(load_setting_reply(ask(&conn, &load_setting("lang".to_string()))), Ok(None));
}

#[test]
fn sqlite_end_to_end_scenario() {
    let conn = Connection::open_in_memory().unwrap();
    assert_eq!(initialize(&conn), Ok(()));
    let listed = words(&conn);
    assert_eq!(listed.len(), 10);
    assert_eq!(listed[0], pair("apple", "苹果"));
    assert_eq!(listed, sorted_seeds());
    let saved = save_word_reply(ask(&conn, &save_word("zebra".to_string(), "斑马".to_string())));
    assert_eq!(saved, Ok(()));
    let listed = words(&conn);
    assert_eq!(listed.len(), 11);
    assert_eq!(listed[10], pair("zebra", "斑马"));
    assert_eq!(delete_word_reply(ask(&conn, &delete_word("zebra".to_string()))), Ok(()));
    assert_eq!(words(&conn), sorted_seeds());
    let stored = save_setting_reply(ask(&conn, &save_setting("lang".to_string(), "zh".to_string())));
    assert_eq!(stored, Ok(()));
    assert_eq!(
        load_setting_reply(ask(&conn, &load_setting("lang".to_string()))),
        Ok(Some("zh".to_string()))
    );
    assert_eq!(load_setting_reply(ask(&conn, &load_setting("missing".to_string()))), Ok(None));
}

#[test]
fn sqlite_upsert_is_idempotent() {
    let conn = open();
    for _ in 0..2 {
        let saved = save_word_reply(ask(&conn, &save_word("dog".to_string(), "狗".to_string())));
        assert_eq!(saved, Ok(()));
        assert_eq!(words(&conn), vec![pair("dog", "狗")]);
    }
    let saved = save_word_reply(ask(&conn, &save_word("dog".to_string(), "犬".to_string())));
    assert_eq!(saved, Ok(()));
    assert_eq!(words(&conn), vec![pair("dog", "犬")]);
    for value in ["zh", "zh", "en"] {
        let stored =
            save_setting_reply(ask(&conn, &save_setting("lang".to_string(), value.to_string())));
        assert_eq!(stored, Ok(()));
        assert_eq!(
            load_setting_reply(ask(&conn, &load_setting("lang".to_string()))),
            Ok(Some(value.to_string()))
        );
    }
}

#[test]
fn sqlite_seeds_exactly_once() {
    let conn = Connection::open_in_memory().unwrap();
    assert_eq!(initialize(&conn), Ok(()));
    assert_eq!(initialize(&conn), Ok(()));
    assert_eq!(words(&conn), sorted_seeds());
    assert_eq!(delete_word_reply(ask(&conn, &delete_word("hello".to_string()))), Ok(()));
    assert_eq!(initialize(&conn), Ok(()));
    assert_eq!(words(&conn).len(), 9);
}

#[test]
fn sqlite_delete_of_a_missing_word_is_no_error() {
    let conn = open();
    assert_eq!(delete_word_reply(ask(&conn, &delete_word("zebra".to_string()))), Ok(()));
    assert_eq!(words(&conn), Vec::new());
    assert_eq!(initialize(&conn), Ok(()));
    assert_eq!(delete_word_reply(ask(&conn, &delete_word("zebra".to_string()))), Ok(()));
    assert_eq!(words(&conn), sorted_seeds());
}

#[test]
fn sqlite_lists_words_by_english() {
    let conn = open();
    for (english, chinese) in [("dog", "狗"), ("apple", "苹果")] {
        let saved =
            save_word_reply(ask(&conn, &save_word(english.to_string(), chinese.to_string())));
        assert_eq!(saved, Ok(()));
    }
    assert_eq!(words(&conn), vec![pair("apple", "苹果"), pair("dog", "狗")]);
}

#[test]
fn sqlite_reports_a_missing_table_as_a_failure() {
    let conn = Connection::open_in_memory().unwrap();
    match load_words_reply(ask(&conn, &load_words())) {
        Err(message) => assert!(message.starts_with("查询单词失败: "), "{}", message),
        Ok(found) => panic!("unexpected words {:?}", found),
    }
    match save_word_reply(ask(&conn, &save_word("dog".to_string(), "狗".to_string()))) {
        Err(message) => assert!(message.starts_with("保存单词失败: "), "{}", message),
        Ok(()) => panic!("saved without a table"),
    }
}

#[test]
fn the_memory_store_answers_as_sqlite_does() {
    let conn = Connection::open_in_memory().unwrap();
    let mut store = MemoryStore::new();
    let text = |s: &str| s.to_string();
    let mut requests = vec![init_db().1, Request::Select(Statement::CountWords)];
    for (english, chinese) in
        [("dog", "狗"), ("apple", "苹果"), ("Zebra", "斑马"), ("", "空"), ("你好", "hello"), ("do", "做")]
    {
        requests.push(save_word(text(english), text(chinese)));
        requests.push(load_words());
    }
    requests.push(Request::Execute(Statement::InsertWord { english: text("cat"), chinese: text("猫") }));
    requests.push(Request::Execute(Statement::InsertWord { english: text("cat"), chinese: text("貓") }));
    requests.push(load_words());
    requests.push(Request::Select(Statement::CountWords));
    requests.push(save_word(text("dog"), text("犬")));
    requests.push(delete_word(text("apple")));
    requests.push(delete_word(text("apple")));
    requests.push(delete_word(text("nothing")));
    requests.push(load_words());
    requests.push(load_setting(text("lang")));
    requests.push(save_setting(text("lang"), text("zh")));
    requests.push(save_setting(text("theme"), text("dark")));
    requests.push(load_setting(text("lang")));
    requests.push(save_setting(text("lang"), text("en")));
    requests.push(load_setting(text("lang")));
    requests.push(load_setting(text("theme")));
    requests.push(load_setting(text("")));
    requests.push(Request::Select(Statement::SaveWord { english: text("emu"), chinese: text("鸸鹋") }));
    requests.push(Request::Select(Statement::DeleteWord { english: text("do") }));
    requests.push(load_words());
    requests.push(Request::Select(Statement::CountWords));
    for request in &requests {
        let real = ask(&conn, request);
        let model = store.answer(request);
        match (&real, &model) {
            (Ok(rows), Ok(same)) => assert_eq!(rows, same, "{:?}", request),
            (Err(_), Err(_)) => {}
            _ => panic!("{:?}: {:?} but {:?}", request, real, model),
        }
    }
}

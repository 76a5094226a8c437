use blog_platform_service::models::Blog;
use blog_platform_service::db::DbConnection;
use blog_platform_service::StoreError;

fn payload(title: &str, content: &str, category: &str, tags: &[&str]) -> Blog {
    Blog {
        title: title.to_string(),
        content: content.to_string(),
        category: category.to_string(),
        tags: tags.iter().map(|t| t.to_string()).collect(),
        id: 0,
        created_at: 0,
        updated_at: 0,
        deleted_at: None,
    }
}

#[test]
fn db_create_and_read_roundtrip() {
    let mut db = DbConnection::open().expect("in-memory database must open");

    let created = db
        .create(payload("My First Post", "Hello World!", "Rust", &["testing"]), 100)
        .unwrap();
    assert_eq!(created.id, 1);
    assert_eq!(created.created_at, 100);
    assert_eq!(created.updated_at, 100);

    let row = db.read(1).unwrap();
    assert_eq!(row.id, 1);
    assert_eq!(row.title, "My First Post");
    assert_eq!(row.content, "Hello World!");
    assert_eq!(row.category, "Rust");
    assert_eq!(row.deleted_at, None);
}

#[test]
fn db_read_missing_row_is_not_found() {
    let db = DbConnection::open().unwrap();
    assert!(matches!(db.read(999999).unwrap_err(), StoreError::NotFound));
}

#[test]
fn db_create_rejects_invalid_payloads() {
    let mut db = DbConnection::open().unwrap();
    let err = db.create(payload("", "Hello", "Rust", &["t"]), 1).unwrap_err();
    assert!(matches!(err, StoreError::Validation));
    assert_eq!(db.list_all().unwrap().len(), 0);
}

#[test]
fn db_list_all_returns_live_rows_in_id_order() {
    let mut db = DbConnection::open().unwrap();
    db.create(payload("My First Post", "Hello World!", "Rust", &["t"]), 10).unwrap();
    db.create(payload("My Second Post", "Hello World v2!", "Rust", &["t"]), 20).unwrap();
    db.create(payload("My 3rd Post", "Hello World!", "Rust", &["t"]), 30).unwrap();

    let all = db.list_all().unwrap();
    let ids: Vec<u32> = all.iter().map(|r| r.id).collect();
    assert_eq!(ids, vec![1, 2, 3]);
    assert_eq!(all[1].title, "My Second Post");

    db.delete(1, 40).unwrap();
    let all = db.list_all().unwrap();
    let ids: Vec<u32> = all.iter().map(|r| r.id).collect();
    assert_eq!(ids, vec![2, 3]);
}

#[test]
fn db_search_by_term_matches_columns_case_sensitively() {
    let mut db = DbConnection::open().unwrap();
    db.create(payload("My First Post", "Hello World!", "Rust", &["t"]), 10).unwrap();
    db.create(payload("My Second Post", "Hello World!", "Rust", &["t"]), 20).unwrap();

    let found = db.search_by_term("Second").unwrap();
    assert_eq!(found.len(), 1);
    assert_eq!(found[0].title, "My Second Post");

    // substring of the content column
    assert_eq!(db.search_by_term("World").unwrap().len(), 2);
    // substring of the category column
    assert_eq!(db.search_by_term("Rus").unwrap().len(), 2);
    // case-sensitive
    assert_eq!(db.search_by_term("second").unwrap().len(), 0);
    assert_eq!(db.search_by_term("nowhere").unwrap().len(), 0);
}

#[test]
fn db_update_replaces_fields_of_the_live_row() {
    let mut db = DbConnection::open().unwrap();
    db.create(payload("My First Post", "Hello World!", "Rust", &["t"]), 10).unwrap();

    let row = db
        .update(1, payload("(Not) My First Post", "Hello World!", "Rust", &["t"]), 20)
        .unwrap();
    assert_eq!(row.title, "(Not) My First Post");
    assert_eq!(db.read(1).unwrap().title, "(Not) My First Post");

    let err = db
        .update(42, payload("X", "Y", "Z", &["t"]), 30)
        .unwrap_err();
    assert!(matches!(err, StoreError::NotFound));

    let err = db.update(1, payload("", "Y", "Z", &["t"]), 30).unwrap_err();
    assert!(matches!(err, StoreError::Validation));
    assert_eq!(db.read(1).unwrap().title, "(Not) My First Post");
}

#[test]
fn db_delete_hides_the_row_and_is_not_repeatable() {
    let mut db = DbConnection::open().unwrap();
    db.create(payload("My First Post", "Hello World!", "Rust", &["t"]), 10).unwrap();
    db.create(payload("My Second Post", "Hello World!", "Rust", &["t"]), 20).unwrap();

    db.delete(1, 30).unwrap();
    assert!(matches!(db.read(1).unwrap_err(), StoreError::NotFound));
    assert!(matches!(db.delete(1, 40).unwrap_err(), StoreError::NotFound));
    assert!(matches!(
        db.update(1, payload("X", "Y", "Z", &["t"]), 50).unwrap_err(),
        StoreError::NotFound
    ));
    assert_eq!(db.list_all().unwrap().len(), 1);
    assert_eq!(db.search_by_term("Post").unwrap().len(), 1);
}

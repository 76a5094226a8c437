use blog_platform_service::models::Blog;
use blog_platform_service::store::BlogStore;
use blog_platform_service::StoreError;
use blog_platform_service::message::not_found_message;

fn payload(title: &str, content: &str, category: &str, tags: &[&str]) -> Blog {
    Blog {
        title: title.to_string(),
        content: content.to_string(),
        category: category.to_string(),
        tags: tags.iter().map(|t| t.to_string()).collect(),
        id: 0,
        created_at: 0,
        updated_at: 0,
        deleted_at: None,
    }
}

#[test]
fn main_test_create_and_read_lifecycle() {
    let mut store = BlogStore::new();

    let created = store
        .create(payload("My First Post", "Hello World!", "Rust", &["testing"]), 100)
        .expect("valid payload must be accepted");
    let new_id = created.id;
    assert_eq!(new_id, 1);

    let fetched = store.read(new_id).expect("created post must be readable");
    assert_eq!(fetched.title, "My First Post");
    assert_eq!(fetched.id, new_id);
}

#[test]
fn main_test_read_missing_blog() {
    let store = BlogStore::new();

    let err = store.read(999999).unwrap_err();
    assert!(matches!(err, StoreError::NotFound));
    assert!(not_found_message(999999).contains("There is no blog with id: 999999"));
}

#[test]
fn main_test_read_all_blogs() {
    let mut store = BlogStore::new();

    store
        .create(payload("My First Post", "Hello World!", "Rust", &["testing"]), 100)
        .unwrap();
    store
        .create(payload("My Second Post", "Hello World v2!", "Rust", &["testing"]), 200)
        .unwrap();

    let all = store.list_all();
    assert_eq!(all.len(), 2);
    println!("{} | {}", all[0].title, all[1].title);
}

#[test]
fn main_test_put_blog() {
    let mut store = BlogStore::new();

    let created = store
        .create(payload("My First Post", "Hello World!", "Rust", &["testing"]), 100)
        .unwrap();
    let new_id = created.id;

    let fetched = store.read(new_id).unwrap();
    assert_eq!(fetched.title, "My First Post");
    assert_eq!(fetched.id, new_id);

    let updated = store
        .update(new_id, payload("(Not) My First Post", "Hello World!", "Rust", &["testing"]), 300)
        .expect("update of a live post must succeed");
    let new_title = updated.title;

    assert_eq!(new_title, "(Not) My First Post");
}

#[test]
fn main_test_blog_with_term() {
    let mut store = BlogStore::new();

    store
        .create(payload("My First Post", "Hello World!", "Rust", &["testing"]), 100)
        .unwrap();
    store
        .create(payload("My Second Post", "Hello World!", "Rust", &["testing"]), 200)
        .unwrap();

    let found = store.search_by_term("Second");
    assert_eq!(found.len(), 1);
    assert_eq!(found[0].title, "My Second Post");
}

#[test]
fn tests_test_create_and_read_lifecycle() {
    let mut store = BlogStore::new();

    let created = store
        .create(payload("My First Post", "Hello World!", "Rust", &["testing"]), 100)
        .expect("valid payload must be accepted");
    let new_id = created.id;
    assert_eq!(new_id, 1);

    let fetched = store.read(new_id).expect("created post must be readable");
    assert_eq!(fetched.title, "My First Post");
    assert_eq!(fetched.id, new_id);
}

#[test]
fn tests_test_read_missing_blog() {
    let store = BlogStore::new();

    let err = store.read(999999).unwrap_err();
    assert!(matches!(err, StoreError::NotFound));
    assert!(not_found_message(999999).contains("There is no blog with id: 999999"));
}

#[test]
fn tests_test_read_all_blogs() {
    let mut store = BlogStore::new();

    store
        .create(payload("My First Post", "Hello World!", "Rust", &["testing"]), 100)
        .unwrap();
    store
        .create(payload("My Second Post", "Hello World v2!", "Rust", &["testing"]), 200)
        .unwrap();

    let all = store.list_all();
    assert_eq!(all.len(), 2);
    println!("{} | {}", all[0].title, all[1].title);
}

#[test]
fn tests_test_put_blog() {
    let mut store = BlogStore::new();

    let created = store
        .create(payload("My First Post", "Hello World!", "Rust", &["testing"]), 100)
        .unwrap();
    let new_id = created.id;

    let fetched = store.read(new_id).unwrap();
    assert_eq!(fetched.title, "My First Post");
    assert_eq!(fetched.id, new_id);

    let updated = store
        .update(new_id, payload("(Not) My First Post", "Hello World!", "Rust", &["testing"]), 300)
        .unwrap();

    assert_eq!(updated.title, "(Not) My First Post");
}

#[test]
fn tests_test_blog_with_term() {
    let mut store = BlogStore::new();

    store
        .create(payload("My First Post", "Hello World!", "Rust", &["testing"]), 100)
        .unwrap();
    store
        .create(payload("My Second Post", "Hello World!", "Rust", &["testing"]), 200)
        .unwrap();

    let found = store.search_by_term("Second");
    assert_eq!(found.len(), 1);
    assert_eq!(found[0].title, "My Second Post");
}

#[test]
fn test_delete_blog() {
    let mut store = BlogStore::new();

    store
        .create(payload("My First Post", "Hello World!", "Rust", &["testing"]), 100)
        .unwrap();
    store
        .create(payload("My Second Post", "Hello World!", "Rust", &["testing"]), 200)
        .unwrap();
    store
        .create(payload("My 3rd Post", "Hello World!", "Rust", &["testing"]), 300)
        .unwrap();

    store.delete(1, 400).expect("deleting a live post must succeed");

    let all = store.list_all();
    println!("{} posts left", all.len());
    assert_eq!(all.len(), 2);
}

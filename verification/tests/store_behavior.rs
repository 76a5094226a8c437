use blog_platform_service::models::{Blog, Validated};
use blog_platform_service::store::{BlogStore, DeletePolicy};
use blog_platform_service::StoreError;

fn payload(title: &str, content: &str, category: &str, tags: &[&str]) -> Blog {
    Blog {
        title: title.to_string(),
        content: content.to_string(),
        category: category.to_string(),
        tags: tags.iter().map(|t| t.to_string()).collect(),
        id: 0,
        created_at: 0,
        updated_at: 0,
        deleted_at: None,
    }
}

#[test]
fn scenario_first_post_lifecycle() {
    let mut store = BlogStore::new();

    let created = store
        .create(payload("My First Post", "Hello World!", "Rust", &["testing"]), 100)
        .unwrap();
    assert_eq!(created.id, 1);
    assert_eq!(created.created_at, created.updated_at);

    let fetched = store.read(1).unwrap();
    assert_eq!(fetched.title, "My First Post");
    assert_eq!(fetched.content, "Hello World!");
    assert_eq!(fetched.category, "Rust");
    assert_eq!(fetched.tags, vec!["testing".to_string()]);
    assert_eq!(fetched.created_at, created.created_at);
    assert_eq!(fetched.updated_at, created.updated_at);

    let updated = store
        .update(1, payload("(Not) My First Post", "Hello World!", "Rust", &["testing"]), 100)
        .unwrap();
    assert_eq!(updated.title, "(Not) My First Post");
    assert!(updated.updated_at > created.updated_at);
    assert_eq!(updated.created_at, created.created_at);

    let refetched = store.read(1).unwrap();
    assert_eq!(refetched.title, "(Not) My First Post");
    assert!(refetched.updated_at > refetched.created_at);

    store.delete(1, 500).unwrap();
    assert!(matches!(store.read(1).unwrap_err(), StoreError::NotFound));
    assert!(store.list_all().iter().all(|b| b.id != 1));
}

#[test]
fn create_rejects_invalid_payloads() {
    let mut store = BlogStore::new();

    let cases = vec![
        payload("", "Hello", "Rust", &["t"]),
        payload("Title", "", "Rust", &["t"]),
        payload("Title", "Hello", "", &["t"]),
        payload("Title", "Hello", "Rust", &[]),
        payload("Title", "Hello", "Rust", &["t", ""]),
    ];
    for c in cases {
        let err = store.create(c, 1).unwrap_err();
        assert!(matches!(err, StoreError::Validation));
    }
    assert_eq!(store.list_all().len(), 0);
}

#[test]
fn validated_accepts_exactly_valid_payloads() {
    assert!(Validated::from_data(payload("a", "b", "c", &["d"])).is_ok());
    assert!(Validated::from_data(payload("", "b", "c", &["d"])).is_err());
    assert!(Validated::from_data(payload("a", "b", "c", &[])).is_err());
    assert!(Validated::from_data(payload("a", "b", "c", &["d", ""])).is_err());
}

#[test]
fn update_missing_post_is_not_found_and_creates_nothing() {
    let mut store = BlogStore::new();
    store.create(payload("One", "Body", "Cat", &["t"]), 10).unwrap();

    let err = store
        .update(77, payload("New", "Body", "Cat", &["t"]), 20)
        .unwrap_err();
    assert!(matches!(err, StoreError::NotFound));
    assert_eq!(store.list_all().len(), 1);

    store.delete(1, 30).unwrap();
    let err = store
        .update(1, payload("New", "Body", "Cat", &["t"]), 40)
        .unwrap_err();
    assert!(matches!(err, StoreError::NotFound));
    assert_eq!(store.list_all().len(), 0);
}

#[test]
fn update_invalid_payload_is_validation_error() {
    let mut store = BlogStore::new();
    store.create(payload("One", "Body", "Cat", &["t"]), 10).unwrap();

    let err = store.update(1, payload("", "Body", "Cat", &["t"]), 20).unwrap_err();
    assert!(matches!(err, StoreError::Validation));
    assert_eq!(store.read(1).unwrap().title, "One");
}

#[test]
fn updated_at_strictly_increases_even_with_a_stalled_clock() {
    let mut store = BlogStore::new();
    let created = store.create(payload("One", "Body", "Cat", &["t"]), 10).unwrap();

    let u1 = store.update(1, payload("Two", "Body", "Cat", &["t"]), 10).unwrap();
    assert!(u1.updated_at > created.updated_at);

    let u2 = store.update(1, payload("Three", "Body", "Cat", &["t"]), 10).unwrap();
    assert!(u2.updated_at > u1.updated_at);
    assert_eq!(u2.created_at, created.created_at);
}

#[test]
fn delete_missing_post_is_not_found() {
    let mut store = BlogStore::new();
    assert!(matches!(store.delete(5, 10).unwrap_err(), StoreError::NotFound));

    store.create(payload("One", "Body", "Cat", &["t"]), 10).unwrap();
    store.delete(1, 20).unwrap();
    assert!(matches!(store.delete(1, 30).unwrap_err(), StoreError::NotFound));
}

#[test]
fn hard_delete_removes_and_never_reissues_the_id() {
    let mut store = BlogStore::new();
    store.create(payload("One", "Body", "Cat", &["t"]), 10).unwrap();
    store.create(payload("Two", "Body", "Cat", &["t"]), 20).unwrap();

    store.delete_hard(1).unwrap();
    assert!(matches!(store.read(1).unwrap_err(), StoreError::NotFound));
    assert_eq!(store.list_all().len(), 1);

    let third = store.create(payload("Three", "Body", "Cat", &["t"]), 30).unwrap();
    assert_eq!(third.id, 3);
}

#[test]
fn delete_with_follows_the_policy() {
    let mut store = BlogStore::new();
    store.create(payload("One", "Body", "Cat", &["t"]), 10).unwrap();
    store.create(payload("Two", "Body", "Cat", &["t"]), 20).unwrap();

    store.delete_with(DeletePolicy::Soft, 1, 30).unwrap();
    store.delete_with(DeletePolicy::Hard, 2, 40).unwrap();
    assert_eq!(store.list_all().len(), 0);
    assert!(matches!(store.read(1).unwrap_err(), StoreError::NotFound));
    assert!(matches!(store.read(2).unwrap_err(), StoreError::NotFound));
}

#[test]
fn search_covers_every_field_and_excludes_deleted_posts() {
    let mut store = BlogStore::new();
    store.create(payload("Alpha", "Body one", "Cat", &["red"]), 10).unwrap();
    store.create(payload("Beta", "Alpha inside", "Cat", &["blue"]), 20).unwrap();
    store.create(payload("Gamma", "Body three", "Alpha hidden", &["x"]), 30).unwrap();
    store.create(payload("Delta", "Body four", "Cat", &["Alpha-tag"]), 40).unwrap();
    store.create(payload("Epsilon", "Body five", "Cat", &["y"]), 50).unwrap();

    let found = store.search_by_term("Alpha");
    let ids: Vec<u32> = found.iter().map(|b| b.id).collect();
    assert_eq!(ids, vec![1, 2, 3, 4]);

    store.delete(2, 60).unwrap();
    let found = store.search_by_term("Alpha");
    let ids: Vec<u32> = found.iter().map(|b| b.id).collect();
    assert_eq!(ids, vec![1, 3, 4]);

    assert_eq!(store.search_by_term("nowhere").len(), 0);

    // The empty term is a substring of everything, so it returns every live post.
    assert_eq!(store.search_by_term("").len(), 4);

    // Case-sensitive: a lower-case query must not match "Alpha".
    assert_eq!(store.search_by_term("alpha").len(), 0);
}

#[test]
fn on_create_and_on_update_assign_exactly() {
    let b = payload("T", "C", "K", &["g"]);
    let b = b.on_create(9, 123);
    assert_eq!(b.id, 9);
    assert_eq!(b.created_at, 123);
    assert_eq!(b.updated_at, 123);
    assert_eq!(b.deleted_at, None);
    assert_eq!(b.title, "T");

    let b = b.on_update(456);
    assert_eq!(b.id, 9);
    assert_eq!(b.created_at, 123);
    assert_eq!(b.updated_at, 456);
    assert_eq!(b.title, "T");
}

use vstd::prelude::*;
use crate::StoreError;
use crate::models::{Blog, BlogM, Validated, payload_valid};
use crate::search::{contains_substr, is_substring};

verus! {

#[verifier::external_type_specification]
#[verifier::external_body]
pub struct ExConnection(rusqlite::Connection);

/// What the `blogs` table of this connection holds: for each identifier the
/// title, content and category texts and the deletion stamp (`None` for a
/// live row).
pub uninterp spec fn db_rows(c: rusqlite::Connection) -> Map<
    u32,
    (Seq<char>, Seq<char>, Seq<char>, Option<i64>),
>;

/// Relies on `rusqlite::Connection::open_in_memory`, which yields a fresh
/// private in-memory database, and on `rusqlite::Connection::execute` with
/// a CREATE TABLE statement: on success the connection has a `blogs`
/// table holding no rows.
#[verifier::external_body]
fn open_blog_db() -> (r: Option<rusqlite::Connection>)
    ensures
        r matches Some(c) ==> forall|k: u32| !(#[trigger] db_rows(c).contains_key(k)),
{
    let conn = rusqlite::Connection::open_in_memory().ok()?;
    conn.execute(
        "CREATE TABLE blogs (
            id INTEGER PRIMARY KEY,
            title TEXT NOT NULL,
            content TEXT NOT NULL,
            category TEXT NOT NULL,
            deleted_at INTEGER
        )",
        (),
    ).ok()?;
    Some(conn)
}

/// Relies on `rusqlite::Connection::execute` with an INSERT statement: on
/// success the live row was added under this identifier; on failure the
/// table is unchanged, a single SQLite statement being atomic.
#[verifier::external_body]
fn insert_row(c: &mut rusqlite::Connection, id: u32, title: &str, content: &str, category: &str) -> (r:
    bool)
    ensures
        r ==> db_rows(*final(c)) == db_rows(*old(c)).insert(
            id,
            (title@, content@, category@, None::<i64>),
        ),
        !r ==> db_rows(*final(c)) == db_rows(*old(c)),
{
    c.execute(
        "INSERT INTO blogs (id, title, content, category) VALUES (?1, ?2, ?3, ?4)",
        (id, title, content, category),
    ).is_ok()
}

/// Relies on `rusqlite::Connection::query_one` with a SELECT by
/// identifier, which reports `QueryReturnedNoRows` exactly when no row
/// matches: the row under this identifier, if any.
#[verifier::external_body]
fn get_row(c: &rusqlite::Connection, id: u32) -> (r: Result<
    Option<(String, String, String, Option<i64>)>,
    (),
>)
    ensures
        r matches Ok(Some(t)) ==> db_rows(*c).contains_key(id) && db_rows(*c)[id] == (
            t.0@,
            t.1@,
            t.2@,
            t.3,
        ),
        r matches Ok(None) ==> !db_rows(*c).contains_key(id),
{
    match c.query_one(
        "SELECT title, content, category, deleted_at FROM blogs WHERE id = ?1",
        [id],
        |row| Ok((row.get(0)?, row.get(1)?, row.get(2)?, row.get(3)?)),
    ) {
        Ok(t) => Ok(Some(t)),
        Err(rusqlite::Error::QueryReturnedNoRows) => Ok(None),
        Err(_) => Err(()),
    }
}

/// Relies on `rusqlite`'s `prepare` and `query_map` with a SELECT of the
/// whole table ordered by identifier: on success, one entry per stored
/// row, in ascending identifier order.
#[verifier::external_body]
fn all_rows(c: &rusqlite::Connection) -> (r: Result<
    Vec<(u32, String, String, String, Option<i64>)>,
    (),
>)
    ensures
        r matches Ok(v) ==> {
            &&& forall|i: int|
                0 <= i < v@.len() ==> db_rows(*c).contains_key((#[trigger] v@[i]).0) && db_rows(
                    *c,
                )[v@[i].0] == (v@[i].1@, v@[i].2@, v@[i].3@, v@[i].4)
            &&& forall|k: u32|
                #[trigger] db_rows(*c).contains_key(k) ==> exists|i: int|
                    0 <= i < v@.len() && (#[trigger] v@[i]).0 == k
            &&& forall|i: int, j: int|
                0 <= i < j < v@.len() ==> (#[trigger] v@[i]).0 < (#[trigger] v@[j]).0
        },
{
    let mut stmt = c.prepare(
        "SELECT id, title, content, category, deleted_at FROM blogs ORDER BY id",
    ).map_err(|_| ())?;
    let it = stmt.query_map([], |r| Ok((r.get(0)?, r.get(1)?, r.get(2)?, r.get(3)?, r.get(4)?)))
        .map_err(|_| ())?;
    it.collect::<Result<Vec<_>, _>>().map_err(|_| ())
}

/// Relies on `rusqlite::Connection::execute` with an UPDATE of the live
/// row under this identifier, whose result counts the changed rows: at
/// most one row matches (the identifier is the primary key), the count is
/// 1 exactly when a live row was there, and a failed or matchless
/// statement changes nothing.
#[verifier::external_body]
fn update_row(c: &mut rusqlite::Connection, id: u32, title: &str, content: &str, category: &str) -> (r:
    Result<usize, ()>)
    ensures
        r matches Ok(n) ==> {
            &&& n <= 1
            &&& (n == 1 <==> db_rows(*old(c)).contains_key(id) && db_rows(*old(c))[id].3 is None)
            &&& (n == 1 ==> db_rows(*final(c)) == db_rows(*old(c)).insert(
                id,
                (title@, content@, category@, None::<i64>),
            ))
            &&& (n == 0 ==> db_rows(*final(c)) == db_rows(*old(c)))
        },
        r is Err ==> db_rows(*final(c)) == db_rows(*old(c)),
{
    c.execute(
        "UPDATE blogs SET title = ?1, content = ?2, category = ?3
         WHERE id = ?4 AND deleted_at IS NULL",
        (title, content, category, id),
    ).map_err(|_| ())
}

/// Relies on `rusqlite::Connection::execute` with an UPDATE stamping
/// `deleted_at` on the live row under this identifier, whose result counts
/// the changed rows: at most one row matches, the count is 1 exactly when
/// a live row was there, and a failed or matchless statement changes
/// nothing.
#[verifier::external_body]
fn delete_row(c: &mut rusqlite::Connection, id: u32, at: i64) -> (r: Result<usize, ()>)
    ensures
        r matches Ok(n) ==> {
            &&& n <= 1
            &&& (n == 1 <==> db_rows(*old(c)).contains_key(id) && db_rows(*old(c))[id].3 is None)
            &&& (n == 1 ==> db_rows(*final(c)) == db_rows(*old(c)).insert(
                id,
                (
                    db_rows(*old(c))[id].0,
                    db_rows(*old(c))[id].1,
                    db_rows(*old(c))[id].2,
                    Some(at),
                ),
            ))
            &&& (n == 0 ==> db_rows(*final(c)) == db_rows(*old(c)))
        },
        r is Err ==> db_rows(*final(c)) == db_rows(*old(c)),
{
    c.execute(
        "UPDATE blogs SET deleted_at = ?1 WHERE id = ?2 AND deleted_at IS NULL",
        (at, id),
    ).map_err(|_| ())
}

/// A key holds a live row: present and not soft-deleted.
pub open spec fn live_row(m: Map<u32, (Seq<char>, Seq<char>, Seq<char>, Option<i64>)>, k: u32) -> bool {
    m.contains_key(k) && m[k].3 is None
}

/// Whether `t` occurs in one of the searchable columns of a row: title,
/// content or category (this layout stores no tags).
pub open spec fn row_matches(row: (Seq<char>, Seq<char>, Seq<char>, Option<i64>), t: Seq<char>) -> bool {
    ||| is_substring(t, row.0)
    ||| is_substring(t, row.1)
    ||| is_substring(t, row.2)
}

/// A deletion stamp on the store's instant scale, clamped into SQLite's
/// native signed integer.
pub open spec fn stamp_i64(at: u64) -> i64 {
    if at > i64::MAX as u64 {
        i64::MAX
    } else {
        at as i64
    }
}

/// One row of the relational variant's `blogs` table: the scalar fields of
/// a post, as that layout stores them.
#[derive(Debug)]
pub struct BlogRow {
    pub id: u32,
    pub title: String,
    pub content: String,
    pub category: String,
    pub deleted_at: Option<i64>,
}

/// The relational storage adapter: the single exclusive handle to the
/// SQLite database holding the `blogs` table, together with the identifier
/// counter, which never re-issues an identifier.
pub struct DbConnection {
    conn: rusqlite::Connection,
    next_id: u32,
}

impl DbConnection {
    /// The rows of the `blogs` table, keyed by identifier.
    pub closed spec fn rows(&self) -> Map<u32, (Seq<char>, Seq<char>, Seq<char>, Option<i64>)> {
        db_rows(self.conn)
    }

    /// The identifier the counter will hand out next.
    pub closed spec fn counter(&self) -> u32 {
        self.next_id
    }

    /// Every stored identifier was issued by the counter.
    pub open spec fn wf(&self) -> bool {
        &&& 1 <= self.counter()
        &&& forall|k: u32| #[trigger] self.rows().contains_key(k) ==> 1 <= k < self.counter()
    }

    /// The identifier the counter will hand out next.
    pub fn next_id(&self) -> (r: u32)
        ensures
            r == self.counter(),
    {
        self.next_id
    }

    /// Opens the relational variant: a fresh private in-memory database
    /// with an empty `blogs` table; `Storage` if SQLite refuses one.
    pub fn open() -> (r: Result<DbConnection, StoreError>)
        ensures
            r matches Ok(d) ==> {
                &&& d.wf()
                &&& d.counter() == 1
                &&& forall|k: u32| !(#[trigger] d.rows().contains_key(k))
            },
            r matches Err(e) ==> e is Storage,
    {
        match open_blog_db() {
            Some(conn) => Ok(DbConnection { conn, next_id: 1 }),
            None => Err(StoreError::Storage),
        }
    }

    /// Validates the payload, assigns the next identifier, inserts the
    /// scalar fields as a live row (this layout keeps no tags and no
    /// timestamps), and returns the post as the caller sees it: the
    /// payload with the identifier and both timestamps set to `now`.
    /// `Validation` exactly on an invalid payload; `Storage` if the
    /// insert fails, the table then unchanged.
    pub fn create(&mut self, payload: Blog, now: u64) -> (r: Result<Blog, StoreError>)
        requires
            old(self).wf(),
            old(self).counter() < u32::MAX,
        ensures
            final(self).wf(),
            match r {
                Ok(b) => {
                    &&& payload_valid(payload@)
                    &&& b@ == (BlogM {
                        id: old(self).counter(),
                        created_at: now,
                        updated_at: now,
                        deleted_at: None,
                        ..payload@
                    })
                    &&& final(self).rows() == old(self).rows().insert(
                        old(self).counter(),
                        (payload@.title, payload@.content, payload@.category, None::<i64>),
                    )
                    &&& final(self).counter() == old(self).counter() + 1
                },
                Err(e) => {
                    &&& final(self).rows() == old(self).rows()
                    &&& final(self).counter() == old(self).counter()
                    &&& (e is Validation <==> !payload_valid(payload@))
                    &&& (e is Validation || e is Storage)
                },
            },
    {
        let v = match Validated::from_data(payload) {
            Ok(v) => v,
            Err(e) => {
                return Err(e);
            },
        };
        let id = self.next_id;
        let ok = insert_row(
            &mut self.conn,
            id,
            v.0.title.as_str(),
            v.0.content.as_str(),
            v.0.category.as_str(),
        );
        if !ok {
            proof {
                assert forall|k: u32| #[trigger] self.rows().contains_key(k) implies 1 <= k
                    < self.counter() by {
                    assert(old(self).rows().contains_key(k));
                }
            }
            return Err(StoreError::Storage);
        }
        self.next_id = id + 1;
        proof {
            assert forall|k: u32| #[trigger] self.rows().contains_key(k) implies 1 <= k
                < self.counter() by {
                if k != id {
                    assert(old(self).rows().contains_key(k));
                }
            }
        }
        Ok(v.0.on_create(id, now))
    }

    /// Returns the live row with this identifier; an unknown or
    /// soft-deleted identifier yields `NotFound`, a backend failure
    /// `Storage`.
    pub fn read(&self, id: u32) -> (r: Result<BlogRow, StoreError>)
        ensures
            match r {
                Ok(row) => {
                    &&& live_row(self.rows(), id)
                    &&& row.id == id
                    &&& (row.title@, row.content@, row.category@, row.deleted_at)
                        == self.rows()[id]
                },
                Err(e) => {
                    &&& (e is NotFound ==> !live_row(self.rows(), id))
                    &&& (e is NotFound || e is Storage)
                },
            },
    {
        match get_row(&self.conn, id) {
            Ok(Some((title, content, category, deleted_at))) => {
                if deleted_at.is_none() {
                    Ok(BlogRow { id, title, content, category, deleted_at })
                } else {
                    Err(StoreError::NotFound)
                }
            },
            Ok(None) => Err(StoreError::NotFound),
            Err(_) => Err(StoreError::Storage),
        }
    }

    /// Returns every live row, in ascending identifier order (identifiers
    /// are issued in insertion order, so this is insertion order too).
    #[verifier::rlimit(50)]
    pub fn list_all(&self) -> (r: Result<Vec<BlogRow>, StoreError>)
        ensures
            match r {
                Ok(v) => {
                    &&& forall|i: int|
                        0 <= i < v@.len() ==> live_row(self.rows(), (#[trigger] v@[i]).id)
                            && v@[i].title@ == self.rows()[v@[i].id].0 && v@[i].content@
                            == self.rows()[v@[i].id].1 && v@[i].category@
                            == self.rows()[v@[i].id].2 && v@[i].deleted_at is None
                    &&& forall|k: u32|
                        #[trigger] live_row(self.rows(), k) ==> exists|i: int|
                            0 <= i < v@.len() && (#[trigger] v@[i]).id == k
                    &&& forall|i: int, j: int|
                        0 <= i < j < v@.len() ==> (#[trigger] v@[i]).id < (#[trigger] v@[j]).id
                },
                Err(e) => e is Storage,
            },
    {
        let rows = match all_rows(&self.conn) {
            Ok(rs) => rs,
            Err(_) => {
                return Err(StoreError::Storage);
            },
        };
        let ghost m = self.rows();
        let mut out: Vec<BlogRow> = Vec::new();
        let mut i: usize = 0;
        while i < rows.len()
            invariant
                m == self.rows(),
                0 <= i <= rows@.len(),
                forall|t: int|
                    0 <= t < rows@.len() ==> m.contains_key((#[trigger] rows@[t]).0) && m[rows@[t].0]
                        == (rows@[t].1@, rows@[t].2@, rows@[t].3@, rows@[t].4),
                forall|k: u32|
                    #[trigger] m.contains_key(k) ==> exists|t: int|
                        0 <= t < rows@.len() && (#[trigger] rows@[t]).0 == k,
                forall|t: int, u: int|
                    0 <= t < u < rows@.len() ==> (#[trigger] rows@[t]).0 < (#[trigger] rows@[u]).0,
                forall|l: int|
                    0 <= l < out@.len() ==> live_row(m, (#[trigger] out@[l]).id) && out@[l].title@
                        == m[out@[l].id].0 && out@[l].content@ == m[out@[l].id].1
                        && out@[l].category@ == m[out@[l].id].2 && out@[l].deleted_at is None,
                forall|l: int|
                    0 <= l < out@.len() ==> exists|t: int|
                        0 <= t < i && (#[trigger] rows@[t]).0 == (#[trigger] out@[l]).id,
                forall|t: int|
                    0 <= t < i && (#[trigger] rows@[t]).4 is None ==> exists|l: int|
                        0 <= l < out@.len() && (#[trigger] out@[l]).id == rows@[t].0,
                forall|l1: int, l2: int|
                    0 <= l1 < l2 < out@.len() ==> (#[trigger] out@[l1]).id < (
                    #[trigger] out@[l2]).id,
            decreases rows@.len() - i,
        {
            if rows[i].4.is_none() {
                let ghost prev = out@;
                let ghost prevlen = out@.len() as int;
                let row = BlogRow {
                    id: rows[i].0,
                    title: rows[i].1.clone(),
                    content: rows[i].2.clone(),
                    category: rows[i].3.clone(),
                    deleted_at: None,
                };
                out.push(row);
                proof {
                    assert(out@[prevlen].id == rows@[i as int].0);
                    assert forall|l1: int, l2: int|
                        0 <= l1 < l2 < out@.len() implies (#[trigger] out@[l1]).id < (
                    #[trigger] out@[l2]).id by {
                        if l2 == prevlen {
                            let t = choose|t: int|
                                0 <= t < i && (#[trigger] rows@[t]).0 == out@[l1].id;
                            assert(rows@[t].0 < rows@[i as int].0);
                        }
                    }
                    assert forall|t: int|
                        0 <= t < i as int && (#[trigger] rows@[t]).4 is None implies exists|l: int|
                        0 <= l < out@.len() && (#[trigger] out@[l]).id == rows@[t].0 by {
                        let l = choose|l: int|
                            0 <= l < prev.len() && (#[trigger] prev[l]).id == rows@[t].0;
                        assert(out@[l].id == rows@[t].0);
                    }
                }
            }
            i += 1;
        }
        proof {
            assert forall|k: u32| #[trigger] live_row(m, k) implies exists|l: int|
                0 <= l < out@.len() && (#[trigger] out@[l]).id == k by {
                let t = choose|t: int| 0 <= t < rows@.len() && (#[trigger] rows@[t]).0 == k;
                assert(rows@[t].4 is None);
            }
        }
        Ok(out)
    }

    /// Returns exactly the live rows in which `term` occurs (in the title,
    /// content or category), in ascending identifier order; an empty
    /// result when nothing matches.
    #[verifier::rlimit(50)]
    pub fn search_by_term(&self, term: &str) -> (r: Result<Vec<BlogRow>, StoreError>)
        ensures
            match r {
                Ok(v) => {
                    &&& forall|i: int|
                        0 <= i < v@.len() ==> live_row(self.rows(), (#[trigger] v@[i]).id)
                            && row_matches(self.rows()[v@[i].id], term@) && v@[i].title@
                            == self.rows()[v@[i].id].0 && v@[i].content@
                            == self.rows()[v@[i].id].1 && v@[i].category@
                            == self.rows()[v@[i].id].2 && v@[i].deleted_at is None
                    &&& forall|k: u32|
                        #[trigger] live_row(self.rows(), k) && row_matches(self.rows()[k], term@)
                            ==> exists|i: int| 0 <= i < v@.len() && (#[trigger] v@[i]).id == k
                    &&& forall|i: int, j: int|
                        0 <= i < j < v@.len() ==> (#[trigger] v@[i]).id < (#[trigger] v@[j]).id
                },
                Err(e) => e is Storage,
            },
    {
        let rows = match all_rows(&self.conn) {
            Ok(rs) => rs,
            Err(_) => {
                return Err(StoreError::Storage);
            },
        };
        let ghost m = self.rows();
        let mut out: Vec<BlogRow> = Vec::new();
        let mut i: usize = 0;
        while i < rows.len()
            invariant
                m == self.rows(),
                0 <= i <= rows@.len(),
                forall|t: int|
                    0 <= t < rows@.len() ==> m.contains_key((#[trigger] rows@[t]).0) && m[rows@[t].0]
                        == (rows@[t].1@, rows@[t].2@, rows@[t].3@, rows@[t].4),
                forall|k: u32|
                    #[trigger] m.contains_key(k) ==> exists|t: int|
                        0 <= t < rows@.len() && (#[trigger] rows@[t]).0 == k,
                forall|t: int, u: int|
                    0 <= t < u < rows@.len() ==> (#[trigger] rows@[t]).0 < (#[trigger] rows@[u]).0,
                forall|l: int|
                    0 <= l < out@.len() ==> live_row(m, (#[trigger] out@[l]).id) && row_matches(
                        m[out@[l].id],
                        term@,
                    ) && out@[l].title@ == m[out@[l].id].0 && out@[l].content@ == m[out@[l].id].1
                        && out@[l].category@ == m[out@[l].id].2 && out@[l].deleted_at is None,
                forall|l: int|
                    0 <= l < out@.len() ==> exists|t: int|
                        0 <= t < i && (#[trigger] rows@[t]).0 == (#[trigger] out@[l]).id,
                forall|t: int|
                    0 <= t < i && (#[trigger] rows@[t]).4 is None && row_matches(
                        (rows@[t].1@, rows@[t].2@, rows@[t].3@, rows@[t].4),
                        term@,
                    ) ==> exists|l: int|
                        0 <= l < out@.len() && (#[trigger] out@[l]).id == rows@[t].0,
                forall|l1: int, l2: int|
                    0 <= l1 < l2 < out@.len() ==> (#[trigger] out@[l1]).id < (
                    #[trigger] out@[l2]).id,
            decreases rows@.len() - i,
        {
            let hit = contains_substr(rows[i].1.as_str(), term) || contains_substr(
                rows[i].2.as_str(),
                term,
            ) || contains_substr(rows[i].3.as_str(), term);
            if rows[i].4.is_none() && hit {
                let ghost prev = out@;
                let ghost prevlen = out@.len() as int;
                let row = BlogRow {
                    id: rows[i].0,
                    title: rows[i].1.clone(),
                    content: rows[i].2.clone(),
                    category: rows[i].3.clone(),
                    deleted_at: None,
                };
                out.push(row);
                proof {
                    assert(out@[prevlen].id == rows@[i as int].0);
                    assert forall|l1: int, l2: int|
                        0 <= l1 < l2 < out@.len() implies (#[trigger] out@[l1]).id < (
                    #[trigger] out@[l2]).id by {
                        if l2 == prevlen {
                            let t = choose|t: int|
                                0 <= t < i && (#[trigger] rows@[t]).0 == out@[l1].id;
                            assert(rows@[t].0 < rows@[i as int].0);
                        }
                    }
                    assert forall|t: int|
                        0 <= t < i as int && (#[trigger] rows@[t]).4 is None && row_matches(
                            (rows@[t].1@, rows@[t].2@, rows@[t].3@, rows@[t].4),
                            term@,
                        ) implies exists|l: int|
                        0 <= l < out@.len() && (#[trigger] out@[l]).id == rows@[t].0 by {
                        let l = choose|l: int|
                            0 <= l < prev.len() && (#[trigger] prev[l]).id == rows@[t].0;
                        assert(out@[l].id == rows@[t].0);
                    }
                }
            }
            i += 1;
        }
        proof {
            assert forall|k: u32|
                #[trigger] live_row(m, k) && row_matches(m[k], term@) implies exists|l: int|
                0 <= l < out@.len() && (#[trigger] out@[l]).id == k by {
                let t = choose|t: int| 0 <= t < rows@.len() && (#[trigger] rows@[t]).0 == k;
                assert(rows@[t].4 is None);
                assert(m[k] == (rows@[t].1@, rows@[t].2@, rows@[t].3@, rows@[t].4));
            }
        }
        Ok(out)
    }

    /// Validates the new field values, then replaces the stored columns of
    /// the live row with this identifier and returns the row as stored.
    /// `Validation` exactly on an invalid payload; `NotFound` when no live
    /// row has the identifier; a failed update leaves the table unchanged,
    /// so it never creates a row.
    pub fn update(&mut self, id: u32, payload: Blog, now: u64) -> (r: Result<BlogRow, StoreError>)
        requires
            old(self).wf(),
        ensures
            final(self).wf(),
            final(self).counter() == old(self).counter(),
            match r {
                Ok(row) => {
                    &&& payload_valid(payload@)
                    &&& live_row(old(self).rows(), id)
                    &&& final(self).rows() == old(self).rows().insert(
                        id,
                        (payload@.title, payload@.content, payload@.category, None::<i64>),
                    )
                    &&& row.id == id
                    &&& row.title@ == payload@.title
                    &&& row.content@ == payload@.content
                    &&& row.category@ == payload@.category
                    &&& row.deleted_at is None
                },
                Err(e) => {
                    &&& final(self).rows() == old(self).rows()
                    &&& (e is Validation <==> !payload_valid(payload@))
                    &&& (e is NotFound ==> payload_valid(payload@) && !live_row(
                        old(self).rows(),
                        id,
                    ))
                    &&& (e is Validation || e is NotFound || e is Storage)
                },
            },
    {
        let v = match Validated::from_data(payload) {
            Ok(v) => v,
            Err(e) => {
                return Err(e);
            },
        };
        let n = match update_row(
            &mut self.conn,
            id,
            v.0.title.as_str(),
            v.0.content.as_str(),
            v.0.category.as_str(),
        ) {
            Ok(n) => n,
            Err(_) => {
                proof {
                    assert forall|k: u32| #[trigger] self.rows().contains_key(k) implies 1 <= k
                        < self.counter() by {
                        assert(old(self).rows().contains_key(k));
                    }
                }
                return Err(StoreError::Storage);
            },
        };
        proof {
            assert forall|k: u32| #[trigger] self.rows().contains_key(k) implies 1 <= k
                < self.counter() by {
                if n == 0 || k != id {
                    assert(old(self).rows().contains_key(k));
                }
            }
        }
        if n == 0 {
            return Err(StoreError::NotFound);
        }
        let b = v.0;
        Ok(BlogRow { id, title: b.title, content: b.content, category: b.category, deleted_at: None })
    }

    /// Soft delete: stamps `deleted_at` on the live row with this
    /// identifier, hiding it from reads, listings and searches while
    /// keeping the row; an unknown or already-deleted identifier yields
    /// `NotFound` and changes nothing. `now` is taken on the store's
    /// instant scale and clamped into SQLite's signed integer.
    pub fn delete(&mut self, id: u32, now: u64) -> (r: Result<(), StoreError>)
        requires
            old(self).wf(),
        ensures
            final(self).wf(),
            final(self).counter() == old(self).counter(),
            match r {
                Ok(_) => {
                    &&& live_row(old(self).rows(), id)
                    &&& final(self).rows() == old(self).rows().insert(
                        id,
                        (
                            old(self).rows()[id].0,
                            old(self).rows()[id].1,
                            old(self).rows()[id].2,
                            Some(stamp_i64(now)),
                        ),
                    )
                },
                Err(e) => {
                    &&& final(self).rows() == old(self).rows()
                    &&& (e is NotFound ==> !live_row(old(self).rows(), id))
                    &&& (e is NotFound || e is Storage)
                },
            },
    {
        let at: i64 = if now > i64::MAX as u64 {
            i64::MAX
        } else {
            now as i64
        };
        let n = match delete_row(&mut self.conn, id, at) {
            Ok(n) => n,
            Err(_) => {
                proof {
                    assert forall|k: u32| #[trigger] self.rows().contains_key(k) implies 1 <= k
                        < self.counter() by {
                        assert(old(self).rows().contains_key(k));
                    }
                }
                return Err(StoreError::Storage);
            },
        };
        proof {
            assert forall|k: u32| #[trigger] self.rows().contains_key(k) implies 1 <= k
                < self.counter() by {
                if n == 0 || k != id {
                    assert(old(self).rows().contains_key(k));
                }
            }
        }
        if n == 0 {
            return Err(StoreError::NotFound);
        }
        Ok(())
    }
}

} // verus!

use vstd::prelude::*;
use vstd::pervasive::VecAdditionalExecFns;
use crate::StoreError;
use crate::models::{Blog, BlogM, Validated, payload_valid};
use crate::search::matches_term;

verus! {

/// Mathematical image of a store: the posts in insertion order, the next
/// identifier the counter will hand out, and the last instant stamped.
pub ghost struct StoreM {
    pub posts: Seq<BlogM>,
    pub next_id: u32,
    pub clock: u64,
}

/// Identifiers strictly increase along the sequence; in particular they are
/// unique, and insertion order and identifier order coincide.
pub open spec fn ids_increasing(s: Seq<BlogM>) -> bool {
    forall|i: int, j: int| 0 <= i < j < s.len() ==> (#[trigger] s[i]).id < (#[trigger] s[j]).id
}

/// Every stored post carries an already-issued identifier, ordered
/// timestamps no later than the store's clock, and an accepted payload.
pub open spec fn post_wf(b: BlogM, next_id: u32, clock: u64) -> bool {
    &&& 1 <= b.id < next_id
    &&& b.created_at <= b.updated_at <= clock
    &&& payload_valid(b)
}

/// Well-formedness of the store, established by [`BlogStore::new`] and
/// preserved by every operation.
pub open spec fn store_wf(m: StoreM) -> bool {
    &&& 1 <= m.next_id
    &&& ids_increasing(m.posts)
    &&& forall|i: int| 0 <= i < m.posts.len() ==> post_wf(#[trigger] m.posts[i], m.next_id, m.clock)
}

/// Some stored post with this identifier is live (not soft-deleted).
pub open spec fn has_live(s: Seq<BlogM>, id: u32) -> bool {
    exists|i: int| 0 <= i < s.len() && (#[trigger] s[i]).id == id && s[i].deleted_at is None
}

/// The position of the live post with this identifier, when there is one.
pub open spec fn live_index(s: Seq<BlogM>, id: u32) -> int {
    choose|i: int| 0 <= i < s.len() && (#[trigger] s[i]).id == id && s[i].deleted_at is None
}

/// What a read by identifier returns: the live post with that identifier,
/// or nothing.
pub open spec fn read_model(s: Seq<BlogM>, id: u32) -> Option<BlogM> {
    if has_live(s, id) {
        Some(s[live_index(s, id)])
    } else {
        None
    }
}

/// The live posts, in insertion order.
pub open spec fn live_posts(s: Seq<BlogM>) -> Seq<BlogM> {
    s.filter(|b: BlogM| b.deleted_at is None)
}

/// The live posts in which `t` occurs, in insertion order.
pub open spec fn search_model(s: Seq<BlogM>, t: Seq<char>) -> Seq<BlogM> {
    s.filter(|b: BlogM| b.deleted_at is None && matches_term(b, t))
}

/// The instant stamped on a creation: the caller's clock reading, pulled
/// forward to the store's clock so that the scale never runs backwards.
pub open spec fn tick_create(clock: u64, now: u64) -> u64 {
    if now > clock {
        now
    } else {
        clock
    }
}

/// The instant stamped on an update: strictly past the store's clock, so
/// `updated_at` strictly increases even when the caller's clock stalls.
pub open spec fn tick_update(clock: u64, now: u64) -> u64
    recommends
        clock < u64::MAX,
{
    if now > clock {
        now
    } else {
        (clock + 1) as u64
    }
}

/// The in-memory storage adapter: posts in insertion order, an identifier
/// counter that never re-issues (not even after a hard delete), and the last
/// stamped instant. Soft-deleted posts stay in `posts` and are invisible to
/// every read.
pub struct BlogStore {
    posts: Vec<Blog>,
    next_id: u32,
    clock: u64,
}

impl View for BlogStore {
    type V = StoreM;

    closed spec fn view(&self) -> StoreM {
        StoreM { posts: self.posts.deep_view(), next_id: self.next_id, clock: self.clock }
    }
}

impl BlogStore {
    /// An empty store; the first post created will get identifier 1.
    pub fn new() -> (s: BlogStore)
        ensures
            s@.posts == Seq::<BlogM>::empty(),
            s@.next_id == 1,
            s@.clock == 0,
            store_wf(s@),
    {
        let s = BlogStore { posts: Vec::new(), next_id: 1, clock: 0 };
        proof {
            assert(s@.posts =~= Seq::<BlogM>::empty());
        }
        s
    }

    /// Validates the payload, assigns the next identifier and stamps both
    /// timestamps with the same instant, and appends the post. Fails exactly
    /// on an invalid payload; the returned post is the one stored.
    pub fn create(&mut self, payload: Blog, now: u64) -> (r: Result<Blog, StoreError>)
        requires
            store_wf(old(self)@),
            old(self)@.next_id < u32::MAX,
        ensures
            store_wf(final(self)@),
            match r {
                Ok(b) => {
                    &&& payload_valid(payload@)
                    &&& b@ == (BlogM {
                        id: old(self)@.next_id,
                        created_at: tick_create(old(self)@.clock, now),
                        updated_at: tick_create(old(self)@.clock, now),
                        deleted_at: None,
                        ..payload@
                    })
                    &&& final(self)@.posts == old(self)@.posts.push(b@)
                    &&& final(self)@.next_id == old(self)@.next_id + 1
                    &&& final(self)@.clock == tick_create(old(self)@.clock, now)
                },
                Err(e) => {
                    &&& e is Validation
                    &&& !payload_valid(payload@)
                    &&& final(self)@ == old(self)@
                },
            },
    {
        let v = match Validated::from_data(payload) {
            Ok(v) => v,
            Err(e) => {
                return Err(e);
            },
        };
        let id = self.next_id;
        let tick = if now > self.clock { now } else { self.clock };
        let b = v.0.on_create(id, tick);
        let stored = b.duplicate();
        self.posts.push(b);
        self.next_id = id + 1;
        self.clock = tick;
        proof {
            assert(self@.posts =~= old(self)@.posts.push(stored@));
        }
        Ok(stored)
    }

    /// Returns the live post with this identifier; an unknown or
    /// soft-deleted identifier yields `NotFound`.
    pub fn read(&self, id: u32) -> (r: Result<Blog, StoreError>)
        requires
            store_wf(self@),
        ensures
            match r {
                Ok(b) => read_model(self@.posts, id) == Some(b@),
                Err(e) => e is NotFound && read_model(self@.posts, id) is None,
            },
    {
        match self.find_live_idx(id) {
            Some(i) => Ok(self.posts[i].duplicate()),
            None => Err(StoreError::NotFound),
        }
    }

    /// The identifier the counter will hand out next.
    pub fn next_id(&self) -> (r: u32)
        ensures
            r == self@.next_id,
    {
        self.next_id
    }

    /// The last instant the store stamped.
    pub fn clock(&self) -> (r: u64)
        ensures
            r == self@.clock,
    {
        self.clock
    }

    /// The position of the live post with this identifier, if any.
    fn find_live_idx(&self, id: u32) -> (r: Option<usize>)
        requires
            store_wf(self@),
        ensures
            r matches Some(i) ==> {
                &&& i < self@.posts.len()
                &&& self@.posts[i as int].id == id
                &&& self@.posts[i as int].deleted_at is None
                &&& has_live(self@.posts, id)
                &&& i as int == live_index(self@.posts, id)
            },
            r is None ==> !has_live(self@.posts, id),
    {
        let ghost s = self@.posts;
        let mut i: usize = 0;
        while i < self.posts.len()
            invariant
                store_wf(self@),
                s == self@.posts,
                0 <= i <= s.len(),
                forall|j: int|
                    0 <= j < i ==> !((#[trigger] s[j]).id == id && s[j].deleted_at is None),
            decreases s.len() - i,
        {
            if self.posts[i].id == id && self.posts[i].deleted_at.is_none() {
                proof {
                    assert(has_live(s, id));
                    let k = live_index(s, id);
                    if k != i as int {
                        assert(s[k].id == s[i as int].id);
                        assert(false);
                    }
                }
                return Some(i);
            }
            i += 1;
        }
        proof {
            assert(!has_live(s, id));
        }
        None
    }

    /// Returns every live post, in insertion order.
    pub fn list_all(&self) -> (r: Vec<Blog>)
        requires
            store_wf(self@),
        ensures
            r.deep_view() == live_posts(self@.posts),
    {
        let ghost s = self@.posts;
        let mut out: Vec<Blog> = Vec::new();
        let mut i: usize = 0;
        proof {
            assert(s.take(0) =~= Seq::<BlogM>::empty());
            reveal(Seq::filter);
        }
        while i < self.posts.len()
            invariant
                s == self@.posts,
                0 <= i <= s.len(),
                out.deep_view() == live_posts(s.take(i as int)),
            decreases s.len() - i,
        {
            let ghost prev = out.deep_view();
            if self.posts[i].deleted_at.is_none() {
                out.push(self.posts[i].duplicate());
                proof {
                    assert(out.deep_view() =~= prev.push(s[i as int]));
                }
            }
            proof {
                lemma_live_take_step(s, i as int);
            }
            i += 1;
        }
        proof {
            assert(s.take(s.len() as int) =~= s);
        }
        out
    }

    /// Returns exactly the live posts in which `term` occurs (in the title,
    /// content, category or a tag), in insertion order; an empty result
    /// when nothing matches.
    pub fn search_by_term(&self, term: &str) -> (r: Vec<Blog>)
        requires
            store_wf(self@),
        ensures
            r.deep_view() == search_model(self@.posts, term@),
    {
        let ghost s = self@.posts;
        let mut out: Vec<Blog> = Vec::new();
        let mut i: usize = 0;
        proof {
            assert(s.take(0) =~= Seq::<BlogM>::empty());
            reveal(Seq::filter);
        }
        while i < self.posts.len()
            invariant
                s == self@.posts,
                0 <= i <= s.len(),
                out.deep_view() == search_model(s.take(i as int), term@),
            decreases s.len() - i,
        {
            let ghost prev = out.deep_view();
            if self.posts[i].deleted_at.is_none()
                && crate::search::blog_matches_term(&self.posts[i], term) {
                out.push(self.posts[i].duplicate());
                proof {
                    assert(out.deep_view() =~= prev.push(s[i as int]));
                }
            }
            proof {
                lemma_search_take_step(s, term@, i as int);
            }
            i += 1;
        }
        proof {
            assert(s.take(s.len() as int) =~= s);
        }
        out
    }

    /// Validates the new field values, then replaces the fields of the live
    /// post with this identifier and stamps a strictly later `updated_at`.
    /// Fails with `Validation` exactly on an invalid payload, and otherwise
    /// with `NotFound` exactly when no live post has the identifier; a
    /// failed update leaves the store unchanged, so it never creates a
    /// record.
    pub fn update(&mut self, id: u32, payload: Blog, now: u64) -> (r: Result<Blog, StoreError>)
        requires
            store_wf(old(self)@),
            old(self)@.clock < u64::MAX,
        ensures
            store_wf(final(self)@),
            match r {
                Ok(b) => {
                    &&& payload_valid(payload@)
                    &&& has_live(old(self)@.posts, id)
                    &&& ({
                        let i = live_index(old(self)@.posts, id);
                        let tick = tick_update(old(self)@.clock, now);
                        &&& b@ == (BlogM {
                            id,
                            created_at: old(self)@.posts[i].created_at,
                            updated_at: tick,
                            deleted_at: None,
                            ..payload@
                        })
                        &&& b@.updated_at > old(self)@.posts[i].updated_at
                        &&& final(self)@.posts == old(self)@.posts.update(i, b@)
                    })
                    &&& final(self)@.next_id == old(self)@.next_id
                    &&& final(self)@.clock == tick_update(old(self)@.clock, now)
                },
                Err(e) => {
                    &&& final(self)@ == old(self)@
                    &&& (e is Validation <==> !payload_valid(payload@))
                    &&& (e is NotFound <==> payload_valid(payload@) && !has_live(
                        old(self)@.posts,
                        id,
                    ))
                    &&& (e is Validation || e is NotFound)
                },
            },
    {
        let v = match Validated::from_data(payload) {
            Ok(v) => v,
            Err(e) => {
                return Err(e);
            },
        };
        let ghost s = old(self)@.posts;
        let i = match self.find_live_idx(id) {
            Some(i) => i,
            None => {
                return Err(StoreError::NotFound);
            },
        };
        let tick = if now > self.clock { now } else { self.clock + 1 };
        let created = self.posts[i].created_at;
        let ghost pay = v.0@;
        let nb = Blog { id, created_at: created, deleted_at: None, ..v.0.on_update(tick) };
        let returned = nb.duplicate();
        proof {
            assert(returned@ =~= (BlogM {
                id,
                created_at: s[i as int].created_at,
                updated_at: tick,
                deleted_at: None,
                ..pay
            }));
        }
        self.posts.set(i, nb);
        self.clock = tick;
        proof {
            assert(self@.posts =~= s.update(i as int, returned@));
            let ns = self@.posts;
            assert forall|p: int, q: int| 0 <= p < q < ns.len() implies (#[trigger] ns[p]).id < (
            #[trigger] ns[q]).id by {
                assert(s[p].id < s[q].id);
            }
            assert forall|j: int| 0 <= j < ns.len() implies post_wf(
                #[trigger] ns[j],
                self@.next_id,
                self@.clock,
            ) by {
                assert(post_wf(s[j], old(self)@.next_id, old(self)@.clock));
                if j == i as int {
                    assert(payload_valid(pay));
                    assert(post_wf(returned@, self@.next_id, self@.clock));
                }
            }
        }
        Ok(returned)
    }

    /// Soft delete: marks the live post with this identifier deleted, hiding
    /// it from reads, listings and searches while keeping its record; an
    /// unknown or already-deleted identifier yields `NotFound` and changes
    /// nothing.
    pub fn delete(&mut self, id: u32, now: u64) -> (r: Result<(), StoreError>)
        requires
            store_wf(old(self)@),
        ensures
            store_wf(final(self)@),
            final(self)@.next_id == old(self)@.next_id,
            final(self)@.clock == old(self)@.clock,
            match r {
                Ok(_) => {
                    &&& has_live(old(self)@.posts, id)
                    &&& ({
                        let i = live_index(old(self)@.posts, id);
                        final(self)@.posts == old(self)@.posts.update(
                            i,
                            (BlogM { deleted_at: Some(now), ..old(self)@.posts[i] }),
                        )
                    })
                },
                Err(e) => {
                    &&& e is NotFound
                    &&& !has_live(old(self)@.posts, id)
                    &&& final(self)@ == old(self)@
                },
            },
    {
        let ghost s = old(self)@.posts;
        let i = match self.find_live_idx(id) {
            Some(i) => i,
            None => {
                return Err(StoreError::NotFound);
            },
        };
        let d = self.posts[i].duplicate();
        let d = Blog { deleted_at: Some(now), ..d };
        self.posts.set(i, d);
        proof {
            assert(self@.posts =~= s.update(
                i as int,
                (BlogM { deleted_at: Some(now), ..s[i as int] }),
            ));
        }
        Ok(())
    }

    /// Hard delete: removes the record of the live post with this identifier.
    /// The identifier counter is not lowered, so the identifier is never
    /// issued again.
    pub fn delete_hard(&mut self, id: u32) -> (r: Result<(), StoreError>)
        requires
            store_wf(old(self)@),
        ensures
            store_wf(final(self)@),
            final(self)@.next_id == old(self)@.next_id,
            final(self)@.clock == old(self)@.clock,
            match r {
                Ok(_) => {
                    &&& has_live(old(self)@.posts, id)
                    &&& final(self)@.posts == old(self)@.posts.remove(
                        live_index(old(self)@.posts, id),
                    )
                },
                Err(e) => {
                    &&& e is NotFound
                    &&& !has_live(old(self)@.posts, id)
                    &&& final(self)@ == old(self)@
                },
            },
    {
        let ghost s = old(self)@.posts;
        let i = match self.find_live_idx(id) {
            Some(i) => i,
            None => {
                return Err(StoreError::NotFound);
            },
        };
        self.posts.remove(i);
        proof {
            assert(self@.posts =~= s.remove(i as int));
            assert forall|p: int, q: int| 0 <= p < q < self@.posts.len() implies (
            #[trigger] self@.posts[p]).id < (#[trigger] self@.posts[q]).id by {
                if q < i as int {
                    assert(s[p].id < s[q].id);
                } else if p < i as int {
                    assert(s[p].id < s[q + 1].id);
                } else {
                    assert(s[p + 1].id < s[q + 1].id);
                }
            }
        }
        Ok(())
    }

    /// Deletes under the chosen policy: soft keeps the record and hides it,
    /// hard removes it. Both report `NotFound` for an unknown or
    /// already-deleted identifier.
    pub fn delete_with(&mut self, policy: DeletePolicy, id: u32, now: u64) -> (r: Result<
        (),
        StoreError,
    >)
        requires
            store_wf(old(self)@),
        ensures
            store_wf(final(self)@),
            final(self)@.next_id == old(self)@.next_id,
            final(self)@.clock == old(self)@.clock,
            r is Ok <==> has_live(old(self)@.posts, id),
            r matches Err(e) ==> e is NotFound && final(self)@ == old(self)@,
            r is Ok && policy is Soft ==> final(self)@.posts == old(self)@.posts.update(
                live_index(old(self)@.posts, id),
                (BlogM {
                    deleted_at: Some(now),
                    ..old(self)@.posts[live_index(old(self)@.posts, id)]
                }),
            ),
            r is Ok && policy is Hard ==> final(self)@.posts == old(self)@.posts.remove(
                live_index(old(self)@.posts, id),
            ),
    {
        match policy {
            DeletePolicy::Soft => self.delete(id, now),
            DeletePolicy::Hard => self.delete_hard(id),
        }
    }
}

/// How a delete disposes of the record: soft keeps it and hides it (the
/// default, preserving auditability), hard removes it.
#[derive(Clone, Copy, Debug, PartialEq, Eq, Structural)]
pub enum DeletePolicy {
    Soft,
    Hard,
}

/// Extending the listing of live posts by one post keeps it a listing of
/// live posts: the post is appended exactly when it is live.
proof fn lemma_live_take_step(s: Seq<BlogM>, i: int)
    requires
        0 <= i < s.len(),
    ensures
        live_posts(s.take(i + 1)) == (if s[i].deleted_at is None {
            live_posts(s.take(i)).push(s[i])
        } else {
            live_posts(s.take(i))
        }),
{
    reveal(Seq::filter);
    assert(s.take(i + 1).drop_last() =~= s.take(i));
    assert(s.take(i + 1).last() == s[i]);
}

/// Everything the listing of live posts holds is a live post of the store.
proof fn lemma_live_posts_membership(s: Seq<BlogM>, j: int)
    requires
        0 <= j < live_posts(s).len(),
    ensures
        exists|k: int|
            0 <= k < s.len() && #[trigger] s[k] == live_posts(s)[j] && s[k].deleted_at is None,
    decreases s.len(),
{
    reveal(Seq::filter);
    if s.len() > 0 {
        let f = live_posts(s);
        let fd = live_posts(s.drop_last());
        if j < fd.len() {
            lemma_live_posts_membership(s.drop_last(), j);
            let k = choose|k: int|
                0 <= k < s.drop_last().len() && #[trigger] s.drop_last()[k] == fd[j]
                    && s.drop_last()[k].deleted_at is None;
            assert(s[k] == s.drop_last()[k]);
            assert(f[j] == fd[j]);
        } else {
            assert(s.last().deleted_at is None);
            assert(s[s.len() - 1] == f[j]);
        }
    }
}

/// After a post is created, reading its identifier returns exactly that
/// post: the payload together with the assigned identifier and timestamps.
/// Holds whenever the stored identifiers are distinct and the new one is
/// fresh, which [`store_wf`] and the identifier counter guarantee.
pub proof fn lemma_create_then_read(posts: Seq<BlogM>, b: BlogM)
    requires
        forall|p: int, q: int|
            0 <= p < q < posts.len() ==> (#[trigger] posts[p]).id != (#[trigger] posts[q]).id,
        forall|p: int| 0 <= p < posts.len() ==> (#[trigger] posts[p]).id != b.id,
        b.deleted_at is None,
    ensures
        read_model(posts.push(b), b.id) == Some(b),
{
    let s2 = posts.push(b);
    assert(s2[posts.len() as int] == b);
    assert(has_live(s2, b.id));
    let k = live_index(s2, b.id);
    if k != posts.len() as int {
        assert(posts[k].id == b.id);
        assert(false);
    }
}

/// After a soft delete, a read of the deleted identifier finds nothing and
/// the listing of live posts never contains it. Holds whenever the stored
/// identifiers are distinct, which [`store_wf`] guarantees.
pub proof fn lemma_delete_hides(posts: Seq<BlogM>, i: int, at: u64)
    requires
        forall|p: int, q: int|
            0 <= p < q < posts.len() ==> (#[trigger] posts[p]).id != (#[trigger] posts[q]).id,
        0 <= i < posts.len(),
    ensures
        ({
            let s2 = posts.update(i, (BlogM { deleted_at: Some(at), ..posts[i] }));
            &&& read_model(s2, posts[i].id) is None
            &&& forall|j: int|
                0 <= j < live_posts(s2).len() ==> (#[trigger] live_posts(s2)[j]).id != posts[i].id
        }),
{
    broadcast use vstd::seq_lib::group_filter_ensures;

    let s2 = posts.update(i, (BlogM { deleted_at: Some(at), ..posts[i] }));
    if has_live(s2, posts[i].id) {
        let k = live_index(s2, posts[i].id);
        assert(k != i);
        assert(posts[k].id == posts[i].id);
        assert(false);
    }
    assert forall|j: int| 0 <= j < live_posts(s2).len() implies (#[trigger] live_posts(
        s2,
    )[j]).id != posts[i].id by {
        lemma_live_posts_membership(s2, j);
        let k = choose|k: int|
            0 <= k < s2.len() && #[trigger] s2[k] == live_posts(s2)[j]
                && s2[k].deleted_at is None;
        assert(k != i);
        if live_posts(s2)[j].id == posts[i].id {
            assert(posts[k].id == posts[i].id);
            assert(false);
        }
    }
}

/// In a well-formed store no post was updated before it was created:
/// `created_at <= updated_at` for every stored post.
pub proof fn lemma_timestamps_ordered(m: StoreM)
    requires
        store_wf(m),
    ensures
        forall|i: int|
            0 <= i < m.posts.len() ==> (#[trigger] m.posts[i]).created_at
                <= m.posts[i].updated_at,
{
}

/// The matching counterpart of [`lemma_live_take_step`] for a search.
proof fn lemma_search_take_step(s: Seq<BlogM>, t: Seq<char>, i: int)
    requires
        0 <= i < s.len(),
    ensures
        search_model(s.take(i + 1), t) == (if s[i].deleted_at is None && matches_term(s[i], t) {
            search_model(s.take(i), t).push(s[i])
        } else {
            search_model(s.take(i), t)
        }),
{
    reveal(Seq::filter);
    assert(s.take(i + 1).drop_last() =~= s.take(i));
    assert(s.take(i + 1).last() == s[i]);
}

} // verus!

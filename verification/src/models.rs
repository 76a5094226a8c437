use vstd::prelude::*;

verus! {

/// Mathematical image of a post: every field as a plain specification value.
/// Contracts throughout the crate are stated over this model.
#[verifier::ext_equal]
pub ghost struct BlogM {
    pub id: u32,
    pub title: Seq<char>,
    pub content: Seq<char>,
    pub category: Seq<char>,
    pub tags: Seq<Seq<char>>,
    pub created_at: u64,
    pub updated_at: u64,
    pub deleted_at: Option<u64>,
}

/// A blog post. `title`, `content`, `category` and `tags` come from the
/// client; `id` and the two timestamps are assigned at creation; `deleted_at`
/// is set by a soft delete and hides the post from every read.
///
/// Timestamps are instants on a monotonic UTC scale, held as plain integers;
/// rendering them as RFC3339 text is left to the caller (see [`crate::clock`]).
#[derive(Debug)]
pub struct Blog {
    pub title: String,
    pub content: String,
    pub category: String,
    pub tags: Vec<String>,
    pub id: u32,
    pub created_at: u64,
    pub updated_at: u64,
    pub deleted_at: Option<u64>,
}

impl View for Blog {
    type V = BlogM;

    open spec fn view(&self) -> BlogM {
        BlogM {
            id: self.id,
            title: self.title@,
            content: self.content@,
            category: self.category@,
            tags: self.tags.deep_view(),
            created_at: self.created_at,
            updated_at: self.updated_at,
            deleted_at: self.deleted_at,
        }
    }
}

impl DeepView for Blog {
    type V = BlogM;

    open spec fn deep_view(&self) -> BlogM {
        self.view()
    }
}

/// A candidate payload is accepted if and only if `title`, `content` and
/// `category` are all non-empty and `tags` is a non-empty sequence of
/// non-empty labels.
pub open spec fn payload_valid(b: BlogM) -> bool {
    &&& b.title.len() > 0
    &&& b.content.len() > 0
    &&& b.category.len() > 0
    &&& b.tags.len() > 0
    &&& forall|i: int| 0 <= i < b.tags.len() ==> b.tags[i].len() > 0
}

impl Blog {
    /// Assigns identity and stamps both timestamps with the same instant;
    /// a freshly created post is live.
    pub fn on_create(self, id: u32, now: u64) -> (b: Blog)
        ensures
            b@ == (BlogM {
                id,
                created_at: now,
                updated_at: now,
                deleted_at: None,
                ..self@
            }),
    {
        Blog { id, created_at: now, updated_at: now, deleted_at: None, ..self }
    }

    /// Replaces `updated_at`; `id` and `created_at` are untouched.
    pub fn on_update(self, now: u64) -> (b: Blog)
        ensures
            b@ == (BlogM { updated_at: now, ..self@ }),
    {
        Blog { updated_at: now, ..self }
    }

    /// An owned copy whose model is identical.
    pub fn duplicate(&self) -> (b: Blog)
        ensures
            b@ == self@,
    {
        broadcast use vstd::std_specs::vec::vec_clone_deep_view_proof;

        let b = Blog {
            title: self.title.clone(),
            content: self.content.clone(),
            category: self.category.clone(),
            tags: self.tags.clone(),
            id: self.id,
            created_at: self.created_at,
            updated_at: self.updated_at,
            deleted_at: self.deleted_at,
        };
        proof {
            assert(b.tags.deep_view() =~= self.tags.deep_view());
            assert(b@ =~= self@);
        }
        b
    }
}

/// A payload that passed validation; the wrapped post satisfies
/// [`payload_valid`].
pub struct Validated(pub Blog);

impl Validated {
    /// Accepts a candidate exactly when [`payload_valid`] holds of it.
    pub fn from_data(b: Blog) -> (r: Result<Validated, crate::StoreError>)
        ensures
            r matches Ok(v) ==> v.0@ == b@ && payload_valid(b@),
            r matches Err(e) ==> e is Validation && !payload_valid(b@),
    {
        if b.title.as_str().unicode_len() == 0 {
            return Err(crate::StoreError::Validation);
        }
        if b.content.as_str().unicode_len() == 0 {
            return Err(crate::StoreError::Validation);
        }
        if b.category.as_str().unicode_len() == 0 {
            return Err(crate::StoreError::Validation);
        }
        if b.tags.len() == 0 {
            return Err(crate::StoreError::Validation);
        }
        let mut i: usize = 0;
        while i < b.tags.len()
            invariant
                0 <= i <= b.tags@.len(),
                forall|j: int| 0 <= j < i ==> b.tags.deep_view()[j].len() > 0,
            decreases b.tags@.len() - i,
        {
            if b.tags[i].as_str().unicode_len() == 0 {
                proof {
                    assert(b@.tags[i as int] == b.tags@[i as int]@);
                }
                return Err(crate::StoreError::Validation);
            }
            i += 1;
        }
        Ok(Validated(b))
    }
}

} // verus!

use vstd::prelude::*;

use crate::text::str_eq;

verus! {

/// The kinds of entity that federation caches locally.
#[derive(Clone, Copy, Debug, PartialEq, Eq, Structural)]
pub enum EntityKind {
    User,
    Post,
    Comment,
}

/// A local copy of a federated entity, keyed by its canonical URL.
#[derive(Clone, Debug, PartialEq, Eq)]
pub struct CachedRow {
    pub url: String,
    pub kind: EntityKind,
}

/// Whether some row has the canonical URL `url`.
pub open spec fn holds(rows: Seq<CachedRow>, url: Seq<char>) -> bool {
    exists|i: int| 0 <= i < rows.len() && (#[trigger] rows[i]).url@ == url
}

/// No two rows share a canonical URL.
pub open spec fn unique_urls(rows: Seq<CachedRow>) -> bool {
    forall|i: int, j: int|
        0 <= i < rows.len() && 0 <= j < rows.len() && i != j ==> (#[trigger] rows[i]).url@ != (
        #[trigger] rows[j]).url@
}

/// The rows after `url` is fetched and materialized: a row is added only
/// when none has that URL yet.
pub open spec fn materialized(rows: Seq<CachedRow>, url: String, kind: EntityKind) -> Seq<
    CachedRow,
> {
    if holds(rows, url@) {
        rows
    } else {
        rows.push(CachedRow { url, kind })
    }
}

/// The rows after the entity at `url` is deleted.
pub open spec fn removed(rows: Seq<CachedRow>, url: Seq<char>) -> Seq<CachedRow> {
    if holds(rows, url) {
        rows.remove(choose|i: int| 0 <= i < rows.len() && (#[trigger] rows[i]).url@ == url)
    } else {
        rows
    }
}

/// The local copies of remote entities, at most one per canonical URL.
pub struct EntityCache {
    pub rows: Vec<CachedRow>,
}

impl EntityCache {
    pub open spec fn wf(&self) -> bool {
        unique_urls(self.rows@)
    }

    pub fn new() -> (r: EntityCache)
        ensures
            r.wf(),
            r.rows@.len() == 0,
    {
        EntityCache { rows: Vec::new() }
    }

    /// The position of the row with canonical URL `url`, if any.
    pub fn find(&self, url: &String) -> (r: Option<usize>)
        ensures
            r is None <==> !holds(self.rows@, url@),
            r matches Some(i) ==> i < self.rows@.len() && self.rows@[i as int].url@ == url@,
    {
        let mut i: usize = 0;
        while i < self.rows.len()
            invariant
                i <= self.rows@.len(),
                forall|j: int| 0 <= j < i ==> (#[trigger] self.rows@[j]).url@ != url@,
            decreases self.rows@.len() - i,
        {
            if self.rows[i].url == *url {
                return Some(i);
            }
            i = i + 1;
        }
        None
    }

    /// Fetch-and-materialize: stores the entity at `url` unless a row has
    /// that URL already. Returns whether a row was added.
    pub fn materialize(&mut self, url: String, kind: EntityKind) -> (r: bool)
        requires
            old(self).wf(),
        ensures
            final(self).wf(),
            final(self).rows@ == materialized(old(self).rows@, url, kind),
            r == !holds(old(self).rows@, url@),
    {
        match self.find(&url) {
            Some(_) => false,
            None => {
                self.rows.push(CachedRow { url, kind });
                let ghost rows = self.rows@;
                assert forall|i: int, j: int|
                    0 <= i < rows.len() && 0 <= j < rows.len() && i != j implies (
                    #[trigger] rows[i]).url@ != (#[trigger] rows[j]).url@ by {
                    if i < rows.len() - 1 && j < rows.len() - 1 {
                        assert(rows[i] == old(self).rows@[i]);
                        assert(rows[j] == old(self).rows@[j]);
                    } else if i < rows.len() - 1 {
                        assert(rows[i] == old(self).rows@[i]);
                    } else {
                        assert(rows[j] == old(self).rows@[j]);
                    }
                }
                true
            },
        }
    }

    /// Deletes the row with canonical URL `url`, if any. Returns whether
    /// one was there.
    pub fn remove(&mut self, url: &String) -> (r: bool)
        requires
            old(self).wf(),
        ensures
            final(self).wf(),
            final(self).rows@ == removed(old(self).rows@, url@),
            r == holds(old(self).rows@, url@),
    {
        match self.find(url) {
            Some(i) => {
                let ghost rows = self.rows@;
                let ghost k = choose|k: int| 0 <= k < rows.len() && (#[trigger] rows[k]).url@ == url@;
                assert(k == i as int);
                self.rows.remove(i);
                let ghost after = self.rows@;
                assert forall|a: int, b: int|
                    0 <= a < after.len() && 0 <= b < after.len() && a != b implies (
                    #[trigger] after[a]).url@ != (#[trigger] after[b]).url@ by {
                    let oa = if a < i { a } else { a + 1 };
                    let ob = if b < i { b } else { b + 1 };
                    assert(after[a] == rows[oa]);
                    assert(after[b] == rows[ob]);
                }
                true
            },
            None => false,
        }
    }
}

/// A materialization that runs twice for one canonical URL, as two
/// resolutions of a never-seen URL do, leaves exactly one row for it, and
/// the second run changes nothing.
pub proof fn lemma_materialize_once(
    rows: Seq<CachedRow>,
    url: String,
    first: EntityKind,
    second: EntityKind,
)
    requires
        unique_urls(rows),
    ensures
        materialized(materialized(rows, url, first), url, second) == materialized(
            rows,
            url,
            first,
        ),
        exists|i: int|
            0 <= i < materialized(rows, url, first).len() && (#[trigger] materialized(
                rows,
                url,
                first,
            )[i]).url@ == url@ && forall|j: int|
                0 <= j < materialized(rows, url, first).len() && (#[trigger] materialized(
                    rows,
                    url,
                    first,
                )[j]).url@ == url@ ==> j == i,
{
    let once = materialized(rows, url, first);
    if holds(rows, url@) {
        let i = choose|i: int| 0 <= i < rows.len() && (#[trigger] rows[i]).url@ == url@;
        assert(once[i].url@ == url@);
    } else {
        let i = rows.len() as int;
        assert(once[i].url@ == url@);
        assert(holds(once, url@));
        assert forall|j: int| 0 <= j < once.len() && (#[trigger] once[j]).url@ == url@ implies j
            == i by {
            if j < i {
                assert(once[j] == rows[j]);
            }
        }
    }
}

/// The activity shapes that the inbox accepts.
#[derive(Clone, Copy, Debug, PartialEq, Eq, Structural)]
pub enum ActivityKind {
    Create,
    Update,
    Delete,
    Follow,
    Accept,
    Reject,
    Announce,
    Like,
}

/// The activity shape that an activity's `type` names, if the inbox
/// accepts it.
pub open spec fn activity_kind_of(s: Seq<char>) -> Option<ActivityKind> {
    if s == "Create"@ {
        Some(ActivityKind::Create)
    } else if s == "Update"@ {
        Some(ActivityKind::Update)
    } else if s == "Delete"@ {
        Some(ActivityKind::Delete)
    } else if s == "Follow"@ {
        Some(ActivityKind::Follow)
    } else if s == "Accept"@ {
        Some(ActivityKind::Accept)
    } else if s == "Reject"@ {
        Some(ActivityKind::Reject)
    } else if s == "Announce"@ {
        Some(ActivityKind::Announce)
    } else if s == "Like"@ {
        Some(ActivityKind::Like)
    } else {
        None
    }
}

/// Reads an activity's `type`.
pub fn activity_kind(s: &str) -> (r: Option<ActivityKind>)
    ensures
        r == activity_kind_of(s@),
{
    proof {
        reveal_strlit("Create");
        reveal_strlit("Update");
        reveal_strlit("Delete");
        reveal_strlit("Follow");
        reveal_strlit("Accept");
        reveal_strlit("Reject");
        reveal_strlit("Announce");
        reveal_strlit("Like");
    }
    if str_eq(s, "Create") {
        Some(ActivityKind::Create)
    } else if str_eq(s, "Update") {
        Some(ActivityKind::Update)
    } else if str_eq(s, "Delete") {
        Some(ActivityKind::Delete)
    } else if str_eq(s, "Follow") {
        Some(ActivityKind::Follow)
    } else if str_eq(s, "Accept") {
        Some(ActivityKind::Accept)
    } else if str_eq(s, "Reject") {
        Some(ActivityKind::Reject)
    } else if str_eq(s, "Announce") {
        Some(ActivityKind::Announce)
    } else if str_eq(s, "Like") {
        Some(ActivityKind::Like)
    } else {
        None
    }
}

/// One signed delivery to the inbox, as far as the cache is concerned: the
/// activity's `type` and the object it is about.
#[derive(Clone, Debug, PartialEq, Eq)]
pub struct Delivery {
    pub activity_type: String,
    pub object_url: String,
    pub object_kind: EntityKind,
}

/// Why a delivery was turned away.
#[derive(Clone, Copy, Debug, PartialEq, Eq, Structural)]
pub enum InboxError {
    /// The signature does not match the body and the actor's key.
    SignatureInvalid,
    /// The activity is of a shape that the inbox does not handle.
    UnsupportedActivity,
}

/// The rows after an accepted activity of kind `k`: a creation or an
/// announce materializes its object, a deletion removes it, and the other
/// shapes leave the cache as it is.
pub open spec fn dispatched(rows: Seq<CachedRow>, k: ActivityKind, d: Delivery) -> Seq<CachedRow> {
    match k {
        ActivityKind::Create | ActivityKind::Announce => materialized(
            rows,
            d.object_url,
            d.object_kind,
        ),
        ActivityKind::Delete => removed(rows, d.object_url@),
        _ => rows,
    }
}

/// Handles one delivery whose signature the federation client has checked:
/// a delivery that fails the check, or whose shape is not handled, is
/// turned away with the cache untouched; any other is dispatched.
pub fn shared_inbox(cache: &mut EntityCache, signature_valid: bool, d: &Delivery) -> (r: Result<
    ActivityKind,
    InboxError,
>)
    requires
        old(cache).wf(),
    ensures
        final(cache).wf(),
        !signature_valid ==> r == Err::<ActivityKind, InboxError>(InboxError::SignatureInvalid)
            && final(cache).rows@ == old(cache).rows@,
        signature_valid && activity_kind_of(d.activity_type@) is None ==> r == Err::<
            ActivityKind,
            InboxError,
        >(InboxError::UnsupportedActivity) && final(cache).rows@ == old(cache).rows@,
        signature_valid && activity_kind_of(d.activity_type@) is Some ==> r == Ok::<
            ActivityKind,
            InboxError,
        >(activity_kind_of(d.activity_type@)->Some_0) && final(cache).rows@ == dispatched(
            old(cache).rows@,
            activity_kind_of(d.activity_type@)->Some_0,
            *d,
        ),
{
    if !signature_valid {
        return Err(InboxError::SignatureInvalid);
    }
    match activity_kind(d.activity_type.as_str()) {
        None => Err(InboxError::UnsupportedActivity),
        Some(k) => {
            match k {
                ActivityKind::Create | ActivityKind::Announce => {
                    cache.materialize(d.object_url.clone(), d.object_kind);
                },
                ActivityKind::Delete => {
                    cache.remove(&d.object_url);
                },
                _ => {},
            }
            Ok(k)
        },
    }
}

proof fn lemma_removed_keeps_unique(rows: Seq<CachedRow>, url: Seq<char>)
    requires
        unique_urls(rows),
    ensures
        unique_urls(removed(rows, url)),
        !holds(removed(rows, url), url),
{
    if holds(rows, url) {
        let k = choose|k: int| 0 <= k < rows.len() && (#[trigger] rows[k]).url@ == url;
        let after = rows.remove(k);
        assert forall|a: int, b: int|
            0 <= a < after.len() && 0 <= b < after.len() && a != b implies (
            #[trigger] after[a]).url@ != (#[trigger] after[b]).url@ by {
            let oa = if a < k { a } else { a + 1 };
            let ob = if b < k { b } else { b + 1 };
            assert(after[a] == rows[oa]);
            assert(after[b] == rows[ob]);
        }
        if holds(after, url) {
            let a = choose|a: int| 0 <= a < after.len() && (#[trigger] after[a]).url@ == url;
            let oa = if a < k { a } else { a + 1 };
            assert(after[a] == rows[oa]);
        }
    }
}

/// Replaying a delivery that was accepted once leaves the cache as the
/// first delivery left it: no entity is created twice.
pub proof fn lemma_replay_is_idempotent(rows: Seq<CachedRow>, k: ActivityKind, d: Delivery)
    requires
        unique_urls(rows),
    ensures
        dispatched(dispatched(rows, k, d), k, d) == dispatched(rows, k, d),
{
    match k {
        ActivityKind::Create | ActivityKind::Announce => {
            lemma_materialize_once(rows, d.object_url, d.object_kind, d.object_kind);
        },
        ActivityKind::Delete => {
            lemma_removed_keeps_unique(rows, d.object_url@);
        },
        _ => {},
    }
}

} // verus!

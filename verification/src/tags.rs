//! Tag store: each tag row belongs to exactly one article; an article may
//! have many tags, and duplicates within one article are left to callers.
//! Bulk creation preserves input order, and listing returns insertion
//! order, so creating then listing round-trips the names.

use crate::credentials::now_seconds;
use crate::errors::AppError;
use vstd::prelude::*;
use vstd::string::StringExecFns;

verus! {

/// Mathematical image of one tag row.
pub ghost struct TagV {
    pub id: u128,
    pub article_id: u128,
    pub name: Seq<char>,
    pub created_at: i64,
    pub updated_at: i64,
}

/// One tag row.
#[derive(Debug)]
pub struct Tag {
    pub id: u128,
    pub article_id: u128,
    pub name: String,
    pub created_at: i64,
    pub updated_at: i64,
}

impl View for Tag {
    type V = TagV;

    open spec fn view(&self) -> TagV {
        TagV {
            id: self.id,
            article_id: self.article_id,
            name: self.name@,
            created_at: self.created_at,
            updated_at: self.updated_at,
        }
    }
}

/// The record a bulk insert takes: a name for an article.
pub struct NewTag {
    pub name: String,
    pub article_id: u128,
}

/// The views of a sequence of tag rows.
pub open spec fn tags_view(v: Seq<Tag>) -> Seq<TagV> {
    Seq::new(v.len(), |i: int| v[i]@)
}

/// The tags of article `a`, in insertion order.
pub open spec fn tags_of(s: Seq<TagV>, a: u128) -> Seq<TagV>
    decreases s.len(),
{
    if s.len() == 0 {
        Seq::empty()
    } else {
        tags_of(s.drop_last(), a) + if s.last().article_id == a {
            seq![s.last()]
        } else {
            Seq::empty()
        }
    }
}

/// The owner of tag rows.
pub struct TagStore {
    pub rows: Vec<Tag>,
}

impl View for TagStore {
    type V = Seq<TagV>;

    open spec fn view(&self) -> Seq<TagV> {
        Seq::new(self.rows@.len(), |i: int| self.rows@[i]@)
    }
}

impl TagStore {
    /// Tag ids are dense insertion indices.
    pub open spec fn wf(&self) -> bool {
        forall|i: int| 0 <= i < self@.len() ==> (#[trigger] self@[i]).id == i as u128
    }

    /// An empty store, well formed by construction.
    pub fn new() -> (s: TagStore)
        ensures
            s@.len() == 0,
            s.wf(),
    {
        let s = TagStore { rows: Vec::new() };
        proof {
            assert(s@.len() == 0);
        }
        s
    }
}

impl Tag {
    /// A copy whose view equals this row's view.
    pub fn duplicate(&self) -> (t: Tag)
        ensures
            t@ == self@,
    {
        Tag {
            id: self.id,
            article_id: self.article_id,
            name: self.name.clone(),
            created_at: self.created_at,
            updated_at: self.updated_at,
        }
    }

    /// Bulk insert: one row per record, appended in input order under
    /// fresh dense ids, and returned in the same order. An empty input
    /// yields an empty output, not an error.
    pub fn create(store: &mut TagStore, records: Vec<NewTag>) -> (r: Vec<Tag>)
        requires
            old(store).wf(),
        ensures
            final(store).wf(),
            r@.len() == records@.len(),
            final(store)@ == old(store)@ + tags_view(r@),
            forall|k: int|
                0 <= k < r@.len() ==> {
                    &&& (#[trigger] r@[k])@.name == records@[k].name@
                    &&& r@[k]@.article_id == records@[k].article_id
                    &&& r@[k]@.id == old(store)@.len() + k
                    &&& r@[k]@.created_at == r@[k]@.updated_at
                },
    {
        let now = now_seconds();
        let n = records.len();
        let mut out: Vec<Tag> = Vec::new();
        let mut k: usize = 0;
        while k < n
            invariant
                k <= n,
                n == records@.len(),
                out@.len() == k,
                store.wf(),
                store@ == old(store)@ + tags_view(out@),
                forall|j: int|
                    0 <= j < k ==> {
                        &&& (#[trigger] out@[j])@.name == records@[j].name@
                        &&& out@[j]@.article_id == records@[j].article_id
                        &&& out@[j]@.id == old(store)@.len() + j
                        &&& out@[j]@.created_at == out@[j]@.updated_at
                    },
            decreases n - k,
        {
            let rec = &records[k];
            let tag = Tag {
                id: store.rows.len() as u128,
                article_id: rec.article_id,
                name: rec.name.clone(),
                created_at: now,
                updated_at: now,
            };
            let ghost prev_store = store@;
            let ghost prev_out = out@;
            let copy = tag.duplicate();
            let ghost tag_v = tag@;
            store.rows.push(copy);
            out.push(tag);
            proof {
                assert(store@ =~= prev_store.push(tag_v));
                assert(tags_view(out@) =~= tags_view(prev_out).push(tag_v));
                assert(store@ =~= old(store)@ + tags_view(out@));
                assert forall|i: int| 0 <= i < store@.len() implies (#[trigger] store@[i]).id
                    == i as u128 by {
                    if i < prev_store.len() {
                        assert(store@[i] == prev_store[i]);
                    }
                }
            }
            k = k + 1;
        }
        out
    }

    /// The global list capped at five rows, in insertion order: a fixed
    /// small window in place of real pagination.
    pub fn list(store: &TagStore) -> (r: Result<Vec<Tag>, AppError>)
        ensures
            match r {
                Ok(v) => tags_view(v@) == store@.take(if store@.len() < 5 {
                    store@.len() as int
                } else {
                    5
                }),
                Err(_) => false,
            },
    {
        let n = store.rows.len();
        let cap: usize = if n < 5 {
            n
        } else {
            5
        };
        let mut out: Vec<Tag> = Vec::new();
        let mut i: usize = 0;
        while i < cap
            invariant
                i <= cap,
                cap <= n,
                n == store.rows@.len(),
                out@.len() == i,
                forall|j: int| 0 <= j < i ==> (#[trigger] out@[j])@ == store@[j],
            decreases cap - i,
        {
            out.push(store.rows[i].duplicate());
            i = i + 1;
        }
        proof {
            assert(tags_view(out@) =~= store@.take(cap as int));
        }
        Ok(out)
    }

    /// The tags of `article_id`, in insertion order.
    pub fn list_tags(store: &TagStore, article_id: u128) -> (r: Vec<Tag>)
        ensures
            tags_view(r@) == tags_of(store@, article_id),
    {
        let n = store.rows.len();
        let mut out: Vec<Tag> = Vec::new();
        let mut i: usize = 0;
        proof {
            assert(store@.take(0) =~= Seq::<TagV>::empty());
            assert(tags_view(out@) =~= tags_of(store@.take(0), article_id));
        }
        while i < n
            invariant
                i <= n,
                n == store.rows@.len(),
                tags_view(out@) == tags_of(store@.take(i as int), article_id),
            decreases n - i,
        {
            proof {
                let pre = store@.take(i as int);
                let nxt = store@.take(i as int + 1);
                assert(nxt.drop_last() =~= pre);
                assert(nxt.last() == store@[i as int]);
            }
            if store.rows[i].article_id == article_id {
                out.push(store.rows[i].duplicate());
            }
            proof {
                assert(tags_view(out@) =~= tags_of(store@.take(i as int + 1), article_id));
            }
            i = i + 1;
        }
        proof {
            assert(store@.take(n as int) =~= store@);
        }
        out
    }
}

/// Creating tags on an article with no prior tags and then listing that
/// article's tags returns exactly the created rows, names in input order.
pub proof fn lemma_tags_roundtrip(s: Seq<TagV>, added: Seq<TagV>, a: u128)
    requires
        tags_of(s, a).len() == 0,
        forall|k: int| 0 <= k < added.len() ==> (#[trigger] added[k]).article_id == a,
    ensures
        tags_of(s + added, a) == added,
    decreases added.len(),
{
    if added.len() == 0 {
        assert(s + added =~= s);
        assert(tags_of(s, a) =~= Seq::<TagV>::empty());
        assert(added =~= Seq::<TagV>::empty());
    } else {
        let pre = added.drop_last();
        assert(forall|k: int| 0 <= k < pre.len() ==> (#[trigger] pre[k]) == added[k]);
        lemma_tags_roundtrip(s, pre, a);
        let whole = s + added;
        assert(whole.drop_last() =~= s + pre);
        assert(whole.last() == added.last());
        assert(added.last().article_id == a);
        assert(tags_of(whole, a) == tags_of(s + pre, a) + seq![added.last()]);
        assert(tags_of(whole, a) =~= added);
    }
}

} // verus!

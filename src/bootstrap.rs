//! Bootstrap of an account's follow graph from the repository-listing API: the decisions
//! of the paging loop, and decoding of the listed records into follow edges.
use vstd::prelude::*;

use crate::model::{FeedError, Follow};
use crate::prefs::str_eq;
use crate::store::{FeedStore, StoreState};
use crate::table::{find_key, has_key, lemma_push_unique, Keyed};

verus! {

/// The collection that holds follow records.
pub const FOLLOW_COLLECTION: &'static str = "app.bsky.graph.follow";

/// A field of a listed record: text, or a value of another kind.
#[derive(Clone, Debug)]
pub enum FieldValue {
    Text(String),
    Other,
}

/// The fields of a listed record object that decoding reads.
#[derive(Clone, Debug)]
pub struct ListedObject {
    pub type_tag: Option<FieldValue>,
    pub subject: Option<FieldValue>,
    pub created_at: Option<FieldValue>,
}

#[derive(Clone, Debug)]
pub enum RecordValue {
    Object(ListedObject),
    Null,
    Other,
}

/// One record from a page of the listing.
#[derive(Clone, Debug)]
pub struct ListedRecord {
    pub uri: String,
    pub cid: String,
    pub value: RecordValue,
}

pub open spec fn text_of(f: Option<FieldValue>) -> Option<String> {
    match f {
        Some(FieldValue::Text(t)) => Some(t),
        _ => None,
    }
}

/// What one listed record decodes to: an edge for a follow record, nothing for a record of
/// another type, and an error for a follow record without a text subject and creation time.
pub open spec fn decode_record(did: String, rec: ListedRecord) -> Result<Option<Follow>, ()> {
    match rec.value {
        RecordValue::Object(o) => match text_of(o.type_tag) {
            Some(t) => if t@ == FOLLOW_COLLECTION@ {
                match (text_of(o.subject), text_of(o.created_at)) {
                    (Some(subject), Some(created_at)) => Ok(
                        Some(
                            Follow {
                                uri: rec.uri,
                                cid: rec.cid,
                                author: did,
                                subject,
                                created_at,
                                indexed_at: created_at,
                                prev: None,
                                sequence: None,
                            },
                        ),
                    ),
                    _ => Err(()),
                }
            } else {
                Ok(None)
            },
            None => Ok(None),
        },
        _ => Ok(None),
    }
}

/// The edges that the records decode to, in order, or `None` when one of them is malformed.
pub open spec fn decode_all(did: String, recs: Seq<ListedRecord>) -> Option<Seq<Follow>>
    decreases recs.len(),
{
    if recs.len() == 0 {
        Some(Seq::empty())
    } else {
        match decode_all(did, recs.drop_last()) {
            None => None,
            Some(fs) => match decode_record(did, recs.last()) {
                Err(_) => None,
                Ok(None) => Some(fs),
                Ok(Some(f)) => Some(fs.push(f)),
            },
        }
    }
}

fn text_field(f: &Option<FieldValue>) -> (r: Option<String>)
    ensures
        r == text_of(*f),
{
    match f {
        Some(FieldValue::Text(t)) => Some(t.clone()),
        _ => None,
    }
}

fn decode_one(did: &String, rec: &ListedRecord) -> (r: Result<Option<Follow>, FeedError>)
    ensures
        match decode_record(*did, *rec) {
            Err(_) => r == Err::<Option<Follow>, FeedError>(FeedError::Decode),
            Ok(f) => r == Ok::<Option<Follow>, FeedError>(f),
        },
{
    match &rec.value {
        RecordValue::Object(o) => match text_field(&o.type_tag) {
            Some(t) => {
                if !str_eq(t.as_str(), FOLLOW_COLLECTION) {
                    return Ok(None);
                }
                match (text_field(&o.subject), text_field(&o.created_at)) {
                    (Some(subject), Some(created_at)) => Ok(
                        Some(
                            Follow {
                                uri: rec.uri.clone(),
                                cid: rec.cid.clone(),
                                author: did.clone(),
                                subject,
                                indexed_at: created_at.clone(),
                                created_at,
                                prev: None,
                                sequence: None,
                            },
                        ),
                    ),
                    _ => Err(FeedError::Decode),
                }
            },
            None => Ok(None),
        },
        _ => Ok(None),
    }
}

/// Decodes listed records into `did`'s follow edges; a malformed follow record fails the
/// whole batch.
pub fn follows_from_records(did: &String, records: &Vec<ListedRecord>) -> (r: Result<Vec<Follow>, FeedError>)
    ensures
        match decode_all(*did, records@) {
            None => r == Err::<Vec<Follow>, FeedError>(FeedError::Decode),
            Some(fs) => r.is_ok() && r.unwrap()@ == fs,
        },
{
    let mut out: Vec<Follow> = Vec::new();
    let mut i: usize = 0;
    assert(records@.subrange(0, 0) =~= Seq::<ListedRecord>::empty());
    while i < records.len()
        invariant
            i <= records.len(),
            decode_all(*did, records@.subrange(0, i as int)) == Some(out@),
        decreases records.len() - i,
    {
        let ghost sub = records@.subrange(0, i + 1);
        assert(sub.drop_last() =~= records@.subrange(0, i as int));
        assert(sub.last() == records@[i as int]);
        match decode_one(did, &records[i]) {
            Err(e) => {
                proof {
                    lemma_decode_all_fails(*did, records@, i + 1);
                }
                return Err(e);
            },
            Ok(None) => {},
            Ok(Some(f)) => out.push(f),
        }
        i += 1;
    }
    assert(records@.subrange(0, i as int) =~= records@);
    Ok(out)
}

proof fn lemma_decode_all_fails(did: String, recs: Seq<ListedRecord>, i: int)
    requires
        0 <= i <= recs.len(),
        decode_all(did, recs.subrange(0, i)).is_none(),
    ensures
        decode_all(did, recs).is_none(),
    decreases recs.len() - i,
{
    if i < recs.len() {
        assert(recs.subrange(0, i + 1).drop_last() =~= recs.subrange(0, i));
        lemma_decode_all_fails(did, recs, i + 1);
    } else {
        assert(recs.subrange(0, i) =~= recs);
    }
}

/// What the paging loop does next.
#[derive(Clone, Debug)]
pub enum BootstrapAction {
    /// Ask for the page after this cursor (the first page for `None`).
    FetchPage(Option<String>),
    /// Stop paging: every record there is to have is in hand.
    Finish,
}

/// What a page request brought back.
#[derive(Clone, Debug)]
pub enum PageResult {
    Page { records: Vec<ListedRecord>, cursor: Option<String> },
    /// The request failed: paging stops and keeps what it has.
    Failed,
}

/// The state of one account's bootstrap.
pub struct Bootstrap {
    pub did: String,
    pub records: Vec<ListedRecord>,
    pub cursor: Option<String>,
    pub started: bool,
}

pub open spec fn next_action_spec(b: Bootstrap) -> BootstrapAction {
    if !b.started {
        BootstrapAction::FetchPage(None)
    } else if b.cursor.is_some() {
        BootstrapAction::FetchPage(b.cursor)
    } else {
        BootstrapAction::Finish
    }
}

impl Bootstrap {
    pub fn new(did: String) -> (r: Bootstrap)
        ensures
            r.did == did,
            r.records@.len() == 0,
            r.cursor.is_none(),
            !r.started,
    {
        Bootstrap { did, records: Vec::new(), cursor: None, started: false }
    }

    /// The first page, then each page after the last cursor, until a page without a cursor
    /// or a failure.
    pub fn next_action(&self) -> (r: BootstrapAction)
        ensures
            r == next_action_spec(*self),
    {
        if !self.started {
            BootstrapAction::FetchPage(None)
        } else {
            match &self.cursor {
                Some(c) => BootstrapAction::FetchPage(Some(c.clone())),
                None => BootstrapAction::Finish,
            }
        }
    }

    /// Takes in the result of a page request.
    pub fn on_page(&mut self, page: PageResult)
        ensures
            final(self).started,
            final(self).did == old(self).did,
            match page {
                PageResult::Page { records, cursor } => final(self).records@ == old(
                    self,
                ).records@ + records@ && final(self).cursor == cursor,
                PageResult::Failed => final(self).records@ == old(self).records@
                    && final(self).cursor.is_none(),
            },
    {
        self.started = true;
        match page {
            PageResult::Page { records, cursor } => {
                let mut more = records;
                self.records.append(&mut more);
                self.cursor = cursor;
            },
            PageResult::Failed => {
                self.cursor = None;
            },
        }
    }

    /// The follow edges of everything listed.
    pub fn finish(&self) -> (r: Result<Vec<Follow>, FeedError>)
        ensures
            match decode_all(self.did, self.records@) {
                None => r == Err::<Vec<Follow>, FeedError>(FeedError::Decode),
                Some(fs) => r.is_ok() && r.unwrap()@ == fs,
            },
    {
        follows_from_records(&self.did, &self.records)
    }
}

/// The follow table after inserting `edges` one after the other, skipping uris already there.
pub open spec fn inserted_follows(fs: Seq<Follow>, edges: Seq<Follow>) -> Seq<Follow>
    decreases edges.len(),
{
    if edges.len() == 0 {
        fs
    } else {
        let before = inserted_follows(fs, edges.drop_last());
        if has_key(before, edges.last().uri@) {
            before
        } else {
            before.push(edges.last())
        }
    }
}

impl FeedStore {
    /// Stores follow edges; an edge whose uri is already stored is skipped.
    pub fn insert_follows(&mut self, edges: &Vec<Follow>)
        requires
            old(self).wf(),
        ensures
            final(self).wf(),
            final(self)@ == (StoreState {
                follows: inserted_follows(old(self)@.follows, edges@),
                ..old(self)@
            }),
    {
        let ghost s0 = self@;
        let mut i: usize = 0;
        assert(edges@.subrange(0, 0) =~= Seq::<Follow>::empty());
        while i < edges.len()
            invariant
                i <= edges.len(),
                self.wf(),
                self@ == (StoreState {
                    follows: inserted_follows(s0.follows, edges@.subrange(0, i as int)),
                    ..s0
                }),
            decreases edges.len() - i,
        {
            let ghost sub = edges@.subrange(0, i + 1);
            assert(sub.drop_last() =~= edges@.subrange(0, i as int));
            assert(sub.last() == edges@[i as int]);
            if !find_key(&self.follows, &edges[i].uri) {
                let e = edges[i].copy_row();
                proof {
                    lemma_push_unique(self@.follows, e);
                }
                self.follows.push(e);
            }
            i += 1;
        }
        assert(edges@.subrange(0, i as int) =~= edges@);
    }
}

} // verus!

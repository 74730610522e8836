//! Ingestion of create and delete events into the stores.
use vstd::prelude::*;
use vstd::string::*;

use crate::cursor::{parse_decimal_i64, parse_i64};
use crate::model::{
    Collection, CreateRequest, DeleteRequest, Embed, FeedError, Follow, Like, Post, PostRecord,
    Record, Repost, FollowRecord, SubjectRecord,
};
use crate::order::{copy_opt_string, opt_view};
use crate::prefs::{
    change_prefs, change_prefs_exec, like_command, like_command_of, lemma_change_prefs_wf,
    str_eq, PrefChange, NUMBER_OF_LIKES,
};
use crate::store::{FeedStore, StoreState};
use crate::table::{
    find_key, has_key, lemma_push_unique, lemma_without_keys, remove_keys, strings_view,
    without_keys,
};

verus! {

/// The collection a name stands for.
pub open spec fn collection_named(lex: Seq<char>) -> Option<Collection> {
    if lex == "posts"@ {
        Some(Collection::Posts)
    } else if lex == "reposts"@ {
        Some(Collection::Reposts)
    } else if lex == "likes"@ {
        Some(Collection::Likes)
    } else if lex == "follows"@ {
        Some(Collection::Follows)
    } else {
        None
    }
}

pub fn collection_of(lex: &str) -> (r: Option<Collection>)
    ensures
        r == collection_named(lex@),
{
    if str_eq(lex, "posts") {
        Some(Collection::Posts)
    } else if str_eq(lex, "reposts") {
        Some(Collection::Reposts)
    } else if str_eq(lex, "likes") {
        Some(Collection::Likes)
    } else if str_eq(lex, "follows") {
        Some(Collection::Follows)
    } else {
        None
    }
}

/// The first alt text that is not empty.
pub open spec fn first_nonempty(alts: Seq<String>) -> Option<String>
    decreases alts.len(),
{
    if alts.len() == 0 {
        None
    } else if alts[0]@.len() > 0 {
        Some(alts[0])
    } else {
        first_nonempty(alts.drop_first())
    }
}

/// Language tags joined by commas.
pub open spec fn join_langs(ls: Seq<String>) -> Seq<char>
    decreases ls.len(),
{
    if ls.len() == 0 {
        Seq::empty()
    } else if ls.len() == 1 {
        ls[0]@
    } else {
        join_langs(ls.drop_last()) + seq![','] + ls.last()@
    }
}

pub open spec fn lang_of(rec: PostRecord) -> Option<Seq<char>> {
    match rec.langs {
        Some(ls) => Some(join_langs(ls@)),
        None => None,
    }
}

pub open spec fn media_of(e: Option<Embed>) -> bool {
    match e {
        Some(Embed::Images(_)) => true,
        Some(Embed::Video(_)) => true,
        _ => false,
    }
}

/// An image post's first non-empty alt text; a video's own alt text.
pub open spec fn alt_of(e: Option<Embed>) -> Option<String> {
    match e {
        Some(Embed::Images(alts)) => first_nonempty(alts@),
        Some(Embed::Video(alt)) => alt,
        _ => None,
    }
}

pub open spec fn reply_parent_of(rec: PostRecord) -> Option<String> {
    match rec.reply {
        Some(r) => Some(r.parent.uri),
        None => None,
    }
}

pub open spec fn reply_root_of(rec: PostRecord) -> Option<String> {
    match rec.reply {
        Some(r) => Some(r.root.uri),
        None => None,
    }
}

/// The row that a post record becomes.
pub open spec fn post_row_ok(req: CreateRequest, rec: PostRecord, now: i64, row: Post) -> bool {
    &&& row.uri == req.uri
    &&& row.cid == req.cid
    &&& row.author == req.author
    &&& row.prev == req.prev
    &&& row.sequence == req.sequence
    &&& row.indexed_at == now
    &&& row.reply_parent == reply_parent_of(rec)
    &&& row.reply_root == reply_root_of(rec)
    &&& row.text == Some(rec.text)
    &&& opt_view(row.lang) == lang_of(rec)
    &&& row.media == media_of(rec.embed)
    &&& row.alt == alt_of(rec.embed)
    &&& match rec.embed {
        Some(Embed::External(x)) => row.external_uri == Some(x.uri) && row.external_title == Some(
            x.title,
        ) && row.external_description == Some(x.description) && row.external_thumb == x.thumb,
        _ => row.external_uri.is_none() && row.external_title.is_none()
            && row.external_description.is_none() && row.external_thumb.is_none(),
    }
    &&& match rec.embed {
        Some(Embed::Record(r)) => row.quote_cid == Some(r.cid) && row.quote_uri == Some(r.uri),
        _ => row.quote_cid.is_none() && row.quote_uri.is_none(),
    }
}

/// A reply to the like-threshold sentinel whose text is a non-negative `i32` sets the
/// author's like threshold to it.
pub open spec fn threshold_of(rec: PostRecord) -> Option<i32> {
    match rec.reply {
        Some(r) => if r.parent.uri@ == NUMBER_OF_LIKES@ {
            match parse_i64(rec.text@) {
                Some(v) => if 0 <= v <= i32::MAX {
                    Some(v as i32)
                } else {
                    None
                },
                None => None,
            }
        } else {
            None
        },
        None => None,
    }
}

pub open spec fn repost_row(req: CreateRequest, rec: SubjectRecord, now: i64) -> Repost {
    Repost {
        uri: req.uri,
        cid: req.cid,
        author: req.author,
        subject_uri: rec.subject.uri,
        subject_cid: rec.subject.cid,
        created_at: rec.created_at,
        indexed_at: now,
        prev: req.prev,
        sequence: req.sequence,
    }
}

pub open spec fn like_row(req: CreateRequest, rec: SubjectRecord, now: i64) -> Like {
    Like {
        uri: req.uri,
        cid: req.cid,
        author: req.author,
        subject_uri: rec.subject.uri,
        subject_cid: rec.subject.cid,
        created_at: rec.created_at,
        indexed_at: now,
        prev: req.prev,
        sequence: req.sequence,
    }
}

/// A follow edge from the event stream; it counts as indexed when it was created.
pub open spec fn follow_row(req: CreateRequest, rec: FollowRecord) -> Follow {
    Follow {
        uri: req.uri,
        cid: req.cid,
        author: req.author,
        subject: rec.subject,
        created_at: rec.created_at,
        indexed_at: rec.created_at,
        prev: req.prev,
        sequence: req.sequence,
    }
}

/// Some follow edge of `a` is stored: its follow graph has been bootstrapped.
pub open spec fn author_indexed(fs: Seq<Follow>, a: Seq<char>) -> bool {
    exists|i: int| 0 <= i < fs.len() && (#[trigger] fs[i]).author@ == a
}

/// One create event of collection `kind` applied to `s` gives `s2`. A record of another
/// type, or one whose uri is already stored, changes nothing.
pub open spec fn create_step(
    s: StoreState,
    kind: Collection,
    req: CreateRequest,
    now: i64,
    s2: StoreState,
) -> bool {
    match (kind, req.record) {
        (Collection::Posts, Record::Post(rec)) => if has_key(s.posts, req.uri@) {
            s2 == s
        } else {
            let s1 = match threshold_of(rec) {
                Some(n) => StoreState {
                    preferences: change_prefs(s.preferences, req.author, PrefChange::ReplyThreshold(n)),
                    ..s
                },
                None => s,
            };
            exists|row: Post|
                post_row_ok(req, rec, now, row) && s2 == (StoreState {
                    posts: s1.posts.push(row),
                    ..s1
                })
        },
        (Collection::Reposts, Record::Repost(rec)) => s2 == if has_key(s.reposts, req.uri@) {
            s
        } else {
            StoreState { reposts: s.reposts.push(repost_row(req, rec, now)), ..s }
        },
        (Collection::Likes, Record::Like(rec)) => s2 == if has_key(s.likes, req.uri@) {
            s
        } else {
            let s1 = match like_command(rec.subject.uri@) {
                Some(c) => StoreState {
                    preferences: change_prefs(s.preferences, req.author, c),
                    ..s
                },
                None => s,
            };
            StoreState { likes: s1.likes.push(like_row(req, rec, now)), ..s1 }
        },
        (Collection::Follows, Record::Follow(rec)) => s2 == if has_key(s.follows, req.uri@)
            || !author_indexed(s.follows, req.author@) {
            s
        } else {
            StoreState { follows: s.follows.push(follow_row(req, rec)), ..s }
        },
        _ => s2 == s,
    }
}

/// A batch of create events applied one after the other to `s` gives `s2`.
pub open spec fn creates_ok(
    s: StoreState,
    kind: Collection,
    reqs: Seq<CreateRequest>,
    now: i64,
    s2: StoreState,
) -> bool
    decreases reqs.len(),
{
    if reqs.len() == 0 {
        s2 == s
    } else {
        exists|mid: StoreState|
            creates_ok(s, kind, reqs.drop_last(), now, mid) && create_step(
                mid,
                kind,
                reqs.last(),
                now,
                s2,
            )
    }
}

/// A batch of deletes of collection `kind`: the rows with those uris go.
pub open spec fn delete_step(s: StoreState, kind: Collection, uris: Seq<Seq<char>>) -> StoreState {
    match kind {
        Collection::Posts => StoreState { posts: without_keys(s.posts, uris), ..s },
        Collection::Reposts => StoreState { reposts: without_keys(s.reposts, uris), ..s },
        Collection::Likes => StoreState { likes: without_keys(s.likes, uris), ..s },
        Collection::Follows => StoreState { follows: without_keys(s.follows, uris), ..s },
    }
}

pub open spec fn delete_uris(body: Seq<DeleteRequest>) -> Seq<Seq<char>> {
    body.map_values(|d: DeleteRequest| d.uri@)
}

fn first_nonempty_alt(alts: &Vec<String>) -> (r: Option<String>)
    ensures
        r == first_nonempty(alts@),
{
    let mut i: usize = 0;
    assert(alts@.subrange(0, alts@.len() as int) =~= alts@);
    while i < alts.len()
        invariant
            i <= alts.len(),
            first_nonempty(alts@) == first_nonempty(alts@.subrange(i as int, alts@.len() as int)),
        decreases alts.len() - i,
    {
        let ghost rest = alts@.subrange(i as int, alts@.len() as int);
        assert(rest[0] == alts@[i as int]);
        if alts[i].as_str().unicode_len() > 0 {
            return Some(alts[i].clone());
        }
        assert(rest.drop_first() =~= alts@.subrange(i + 1, alts@.len() as int));
        i += 1;
    }
    None
}

fn join_langs_exec(ls: &Vec<String>) -> (r: String)
    ensures
        r@ == join_langs(ls@),
{
    let mut r = String::new();
    let mut i: usize = 0;
    proof {
        reveal_strlit(",");
    }
    assert(ls@.subrange(0, 0) =~= Seq::<String>::empty());
    while i < ls.len()
        invariant
            i <= ls.len(),
            r@ == join_langs(ls@.subrange(0, i as int)),
            ","@ == seq![','],
        decreases ls.len() - i,
    {
        let ghost sub = ls@.subrange(0, i + 1);
        assert(sub.drop_last() =~= ls@.subrange(0, i as int));
        if i > 0 {
            r.append(",");
        } else {
            assert(sub =~= seq![ls@[0]]);
        }
        r.append(ls[i].as_str());
        assert(r@ =~= join_langs(sub));
        i += 1;
    }
    assert(ls@.subrange(0, i as int) =~= ls@);
    r
}

fn post_row_of(req: &CreateRequest, rec: &PostRecord, now: i64) -> (row: Post)
    ensures
        post_row_ok(*req, *rec, now, row),
{
    let mut row = Post {
        uri: req.uri.clone(),
        cid: req.cid.clone(),
        reply_parent: None,
        reply_root: None,
        indexed_at: now,
        prev: copy_opt_string(&req.prev),
        sequence: req.sequence,
        text: Some(rec.text.clone()),
        lang: None,
        author: req.author.clone(),
        external_uri: None,
        external_title: None,
        external_description: None,
        external_thumb: None,
        quote_cid: None,
        quote_uri: None,
        media: false,
        alt: None,
    };
    match &rec.reply {
        Some(reply) => {
            row.reply_parent = Some(reply.parent.uri.clone());
            row.reply_root = Some(reply.root.uri.clone());
        },
        None => {},
    }
    match &rec.langs {
        Some(ls) => {
            row.lang = Some(join_langs_exec(ls));
        },
        None => {},
    }
    match &rec.embed {
        Some(Embed::Images(alts)) => {
            row.media = true;
            row.alt = first_nonempty_alt(alts);
        },
        Some(Embed::Video(alt)) => {
            row.media = true;
            row.alt = copy_opt_string(alt);
        },
        Some(Embed::RecordWithMedia) => {},
        Some(Embed::External(x)) => {
            row.external_uri = Some(x.uri.clone());
            row.external_title = Some(x.title.clone());
            row.external_description = Some(x.description.clone());
            row.external_thumb = copy_opt_string(&x.thumb);
        },
        Some(Embed::Record(r)) => {
            row.quote_cid = Some(r.cid.clone());
            row.quote_uri = Some(r.uri.clone());
        },
        None => {},
    }
    row
}

/// The like threshold that a post record sets, if it is such a command.
pub fn threshold_command(rec: &PostRecord) -> (r: Option<i32>)
    ensures
        r == threshold_of(*rec),
{
    match &rec.reply {
        Some(reply) => {
            if str_eq(reply.parent.uri.as_str(), NUMBER_OF_LIKES) {
                match parse_decimal_i64(rec.text.as_str()) {
                    Some(v) => {
                        if 0 <= v && v <= i32::MAX as i64 {
                            Some(v as i32)
                        } else {
                            None
                        }
                    },
                    None => None,
                }
            } else {
                None
            }
        },
        None => None,
    }
}

impl FeedStore {
    /// Whether some follow edge of `author` is stored.
    pub fn user_follows_indexed(&self, author: &String) -> (r: bool)
        ensures
            r == author_indexed(self@.follows, author@),
    {
        let mut i: usize = 0;
        while i < self.follows.len()
            invariant
                i <= self.follows.len(),
                forall|j: int| 0 <= j < i ==> (#[trigger] self@.follows[j]).author@ != author@,
            decreases self.follows.len() - i,
        {
            if self.follows[i].author == *author {
                assert(self@.follows[i as int] == self.follows@[i as int]);
                return true;
            }
            i += 1;
        }
        false
    }

    fn ingest_post(&mut self, req: &CreateRequest, now: i64)
        requires
            old(self).wf(),
        ensures
            final(self).wf(),
            create_step(old(self)@, Collection::Posts, *req, now, final(self)@),
    {
        match &req.record {
            Record::Post(rec) => {
                if find_key(&self.posts, &req.uri) {
                    return;
                }
                let row = post_row_of(req, rec, now);
                match threshold_command(rec) {
                    Some(n) => {
                        proof {
                            lemma_change_prefs_wf(self@.preferences, req.author, PrefChange::ReplyThreshold(n));
                        }
                        change_prefs_exec(&mut self.preferences, &req.author, PrefChange::ReplyThreshold(n));
                    },
                    None => {},
                }
                let ghost s1 = self@;
                proof {
                    lemma_push_unique(self@.posts, row);
                }
                self.posts.push(row);
                assert(post_row_ok(*req, *rec, now, row) && self@ == (StoreState {
                    posts: s1.posts.push(row),
                    ..s1
                }));
            },
            _ => {},
        }
    }

    fn ingest_repost(&mut self, req: &CreateRequest, now: i64)
        requires
            old(self).wf(),
        ensures
            final(self).wf(),
            create_step(old(self)@, Collection::Reposts, *req, now, final(self)@),
    {
        match &req.record {
            Record::Repost(rec) => {
                if find_key(&self.reposts, &req.uri) {
                    return;
                }
                let row = Repost {
                    uri: req.uri.clone(),
                    cid: req.cid.clone(),
                    author: req.author.clone(),
                    subject_uri: rec.subject.uri.clone(),
                    subject_cid: rec.subject.cid.clone(),
                    created_at: rec.created_at.clone(),
                    indexed_at: now,
                    prev: copy_opt_string(&req.prev),
                    sequence: req.sequence,
                };
                proof {
                    lemma_push_unique(self@.reposts, row);
                }
                self.reposts.push(row);
            },
            _ => {},
        }
    }

    fn ingest_like(&mut self, req: &CreateRequest, now: i64)
        requires
            old(self).wf(),
        ensures
            final(self).wf(),
            create_step(old(self)@, Collection::Likes, *req, now, final(self)@),
    {
        match &req.record {
            Record::Like(rec) => {
                if find_key(&self.likes, &req.uri) {
                    return;
                }
                match like_command_of(rec.subject.uri.as_str()) {
                    Some(c) => {
                        proof {
                            lemma_change_prefs_wf(self@.preferences, req.author, c);
                        }
                        change_prefs_exec(&mut self.preferences, &req.author, c);
                    },
                    None => {},
                }
                let row = Like {
                    uri: req.uri.clone(),
                    cid: req.cid.clone(),
                    author: req.author.clone(),
                    subject_uri: rec.subject.uri.clone(),
                    subject_cid: rec.subject.cid.clone(),
                    created_at: rec.created_at.clone(),
                    indexed_at: now,
                    prev: copy_opt_string(&req.prev),
                    sequence: req.sequence,
                };
                proof {
                    lemma_push_unique(self@.likes, row);
                }
                self.likes.push(row);
            },
            _ => {},
        }
    }

    fn ingest_follow(&mut self, req: &CreateRequest)
        requires
            old(self).wf(),
        ensures
            final(self).wf(),
            forall|now: i64| create_step(old(self)@, Collection::Follows, *req, now, final(self)@),
    {
        match &req.record {
            Record::Follow(rec) => {
                if find_key(&self.follows, &req.uri) || !self.user_follows_indexed(&req.author) {
                    return;
                }
                let row = Follow {
                    uri: req.uri.clone(),
                    cid: req.cid.clone(),
                    author: req.author.clone(),
                    subject: rec.subject.clone(),
                    created_at: rec.created_at.clone(),
                    indexed_at: rec.created_at.clone(),
                    prev: copy_opt_string(&req.prev),
                    sequence: req.sequence,
                };
                proof {
                    lemma_push_unique(self@.follows, row);
                }
                self.follows.push(row);
            },
            _ => {},
        }
    }

    /// Applies a batch of create events of the collection named `lex`, one after the other,
    /// with `now` (milliseconds since the epoch) as their indexing time. An unknown
    /// collection is a validation error and changes nothing.
    pub fn queue_creation(&mut self, lex: &str, body: &Vec<CreateRequest>, now: i64) -> (r: Result<(), FeedError>)
        requires
            old(self).wf(),
        ensures
            final(self).wf(),
            match collection_named(lex@) {
                None => r == Err::<(), FeedError>(FeedError::Validation) && final(self)@ == old(self)@,
                Some(kind) => r.is_ok() && creates_ok(old(self)@, kind, body@, now, final(self)@),
            },
    {
        let kind = match collection_of(lex) {
            None => return Err(FeedError::Validation),
            Some(k) => k,
        };
        let ghost s0 = self@;
        let mut i: usize = 0;
        assert(body@.subrange(0, 0) =~= Seq::<CreateRequest>::empty());
        while i < body.len()
            invariant
                i <= body.len(),
                self.wf(),
                creates_ok(s0, kind, body@.subrange(0, i as int), now, self@),
            decreases body.len() - i,
        {
            let ghost prev = self@;
            let req = &body[i];
            match kind {
                Collection::Posts => self.ingest_post(req, now),
                Collection::Reposts => self.ingest_repost(req, now),
                Collection::Likes => self.ingest_like(req, now),
                Collection::Follows => self.ingest_follow(req),
            }
            proof {
                let sub = body@.subrange(0, i + 1);
                assert(sub.drop_last() =~= body@.subrange(0, i as int));
                assert(sub.last() == *req);
                assert(creates_ok(s0, kind, sub.drop_last(), now, prev) && create_step(
                    prev,
                    kind,
                    sub.last(),
                    now,
                    self@,
                ));
            }
            i += 1;
        }
        assert(body@.subrange(0, body.len() as int) =~= body@);
        Ok(())
    }

    /// Deletes the rows of the collection named `lex` with the given uris; unknown uris are
    /// ignored. An unknown collection is a validation error and changes nothing.
    pub fn queue_deletion(&mut self, lex: &str, body: &Vec<DeleteRequest>) -> (r: Result<(), FeedError>)
        requires
            old(self).wf(),
        ensures
            final(self).wf(),
            match collection_named(lex@) {
                None => r == Err::<(), FeedError>(FeedError::Validation) && final(self)@ == old(self)@,
                Some(kind) => r.is_ok() && final(self)@ == delete_step(old(self)@, kind, delete_uris(body@)),
            },
    {
        let kind = match collection_of(lex) {
            None => return Err(FeedError::Validation),
            Some(k) => k,
        };
        let mut delete_rows: Vec<String> = Vec::new();
        let mut i: usize = 0;
        while i < body.len()
            invariant
                i <= body.len(),
                strings_view(delete_rows@) == delete_uris(body@.subrange(0, i as int)),
            decreases body.len() - i,
        {
            let ghost before = strings_view(delete_rows@);
            delete_rows.push(body[i].uri.clone());
            assert(strings_view(delete_rows@) =~= before.push(body@[i as int].uri@));
            assert(delete_uris(body@.subrange(0, i + 1)) =~= delete_uris(body@.subrange(0, i as int)).push(body@[i as int].uri@));
            i += 1;
        }
        assert(body@.subrange(0, i as int) =~= body@);
        let ghost d = strings_view(delete_rows@);
        match kind {
            Collection::Posts => {
                proof { lemma_without_keys(self@.posts, d); }
                remove_keys(&mut self.posts, &delete_rows);
            },
            Collection::Reposts => {
                proof { lemma_without_keys(self@.reposts, d); }
                remove_keys(&mut self.reposts, &delete_rows);
            },
            Collection::Likes => {
                proof { lemma_without_keys(self@.likes, d); }
                remove_keys(&mut self.likes, &delete_rows);
            },
            Collection::Follows => {
                proof { lemma_without_keys(self@.follows, d); }
                remove_keys(&mut self.follows, &delete_rows);
            },
        }
        Ok(())
    }
}

} // verus!

//! Feed composition: which posts and reposts a page may hold, in which order.
use vstd::prelude::*;

use crate::cursor::{cursor_bound, cursor_text, encode_cursor, parse_cursor};
use crate::model::{AlgoResponse, FeedError, FeedSettings, Like, Post, PostResult, PostResultReason, Repost};
use crate::order::opt_view;
use crate::seen::{fetched_rows, seen_step};
use crate::order::{is_top, rows_view, top_rows, FeedRow, FeedRowView};
use crate::prefs::settings_for;
use crate::store::{FeedStore, StoreState};
use crate::table::{contains_string, has_key, keys_unique, strings_view};

verus! {

/// The limit a page gets when the request names none.
pub const DEFAULT_LIMIT: i64 = 30;

/// A merged page is cut to the limit only once it has this many rows.
pub const MERGED_CUTOFF: usize = 30;

/// `did` follows `a`.
pub open spec fn follows_account(s: StoreState, did: Seq<char>, a: Seq<char>) -> bool {
    exists|i: int|
        0 <= i < s.follows.len() && (#[trigger] s.follows[i]).author@ == did && s.follows[i].subject@
            == a
}

/// `did` has at least one follow edge stored.
pub open spec fn has_follows(s: StoreState, did: Seq<char>) -> bool {
    exists|i: int| 0 <= i < s.follows.len() && (#[trigger] s.follows[i]).author@ == did
}

pub open spec fn seen_by(s: StoreState, did: Seq<char>, uri: Seq<char>) -> bool {
    exists|i: int|
        0 <= i < s.seen.len() && (#[trigger] s.seen[i]).did@ == did && s.seen[i].uri@ == uri
}

/// `did` asked not to see the reposts of `a`.
pub open spec fn hides_reposts_of(s: StoreState, did: Seq<char>, a: Seq<char>) -> bool {
    exists|i: int|
        0 <= i < s.following_preferences.len() && (#[trigger] s.following_preferences[i]).author@
            == did && s.following_preferences[i].did@ == a && !s.following_preferences[i].show_reposts
}

/// How many likes point at `uri`.
pub open spec fn like_count(likes: Seq<Like>, uri: Seq<char>) -> nat
    decreases likes.len(),
{
    if likes.len() == 0 {
        0
    } else {
        like_count(likes.drop_last(), uri) + if likes.last().subject_uri@ == uri {
            1nat
        } else {
            0nat
        }
    }
}

/// The parent of a reply is by an account that `did` follows, or is not stored.
pub open spec fn parent_followed(s: StoreState, did: Seq<char>, parent: Seq<char>) -> bool {
    forall|i: int|
        0 <= i < s.posts.len() && (#[trigger] s.posts[i]).uri@ == parent ==> follows_account(
            s,
            did,
            s.posts[i].author@,
        )
}

pub open spec fn before_bound(bound: Option<i64>, t: i64) -> bool {
    match bound {
        Some(b) => t < b,
        None => true,
    }
}

/// Whether post `p` may be in `did`'s feed under settings `st`, below `bound`.
pub open spec fn post_shown(
    s: StoreState,
    did: Seq<char>,
    st: FeedSettings,
    bound: Option<i64>,
    p: Post,
) -> bool {
    &&& follows_account(s, did, p.author@)
    &&& st.show_quote_posts || p.quote_uri.is_none()
    &&& !st.hide_no_alt_text || !p.media || p.alt.is_some()
    &&& match p.reply_parent {
        None => true,
        Some(parent) => st.show_replies && (!st.reply_filter_followed_only || parent_followed(
            s,
            did,
            parent@,
        )) && like_count(s.likes, parent@) >= st.reply_filter_likes,
    }
    &&& !st.hide_seen_posts || !seen_by(s, did, p.uri@)
    &&& before_bound(bound, p.indexed_at)
}

/// Whether repost `r` may be in `did`'s feed under settings `st`, below `bound`.
pub open spec fn repost_shown(
    s: StoreState,
    did: Seq<char>,
    st: FeedSettings,
    bound: Option<i64>,
    r: Repost,
) -> bool {
    &&& follows_account(s, did, r.author@)
    &&& !hides_reposts_of(s, did, r.author@)
    &&& !st.hide_seen_posts || !seen_by(s, did, r.uri@)
    &&& before_bound(bound, r.indexed_at)
}

pub open spec fn post_row(p: Post) -> FeedRowView {
    FeedRowView { uri: p.uri@, cid: p.cid@, indexed_at: p.indexed_at, quote_uri: None }
}

pub open spec fn repost_row(r: Repost) -> FeedRowView {
    FeedRowView {
        uri: r.uri@,
        cid: r.cid@,
        indexed_at: r.indexed_at,
        quote_uri: Some(r.subject_uri@),
    }
}

/// The rows of the posts of `ps` that are shown, in table order.
pub open spec fn post_candidates(
    s: StoreState,
    did: Seq<char>,
    st: FeedSettings,
    bound: Option<i64>,
    ps: Seq<Post>,
) -> Seq<FeedRowView>
    decreases ps.len(),
{
    if ps.len() == 0 {
        Seq::empty()
    } else {
        let rest = post_candidates(s, did, st, bound, ps.drop_last());
        if post_shown(s, did, st, bound, ps.last()) {
            rest.push(post_row(ps.last()))
        } else {
            rest
        }
    }
}

/// The rows of the reposts of `rs` that are shown, in table order.
pub open spec fn repost_candidates(
    s: StoreState,
    did: Seq<char>,
    st: FeedSettings,
    bound: Option<i64>,
    rs: Seq<Repost>,
) -> Seq<FeedRowView>
    decreases rs.len(),
{
    if rs.len() == 0 {
        Seq::empty()
    } else {
        let rest = repost_candidates(s, did, st, bound, rs.drop_last());
        if repost_shown(s, did, st, bound, rs.last()) {
            rest.push(repost_row(rs.last()))
        } else {
            rest
        }
    }
}

/// How many rows of a merged page of `n` rows are kept.
pub open spec fn final_count(n: nat, limit: nat) -> nat {
    if n >= 30 {
        if limit < n {
            limit
        } else {
            n
        }
    } else {
        n
    }
}

/// `rows` is a page of `did`'s feed on `s`: the newest `limit` shown posts and, when reposts
/// are shown, the newest `limit` shown reposts, merged newest first and cut by `final_count`.
pub open spec fn page_rows(
    s: StoreState,
    did: Seq<char>,
    limit: nat,
    bound: Option<i64>,
    rows: Seq<FeedRowView>,
) -> bool {
    let st = settings_for(s.preferences, did);
    exists|p: Seq<FeedRowView>, r: Seq<FeedRowView>|
        {
            &&& is_top(post_candidates(s, did, st, bound, s.posts), limit, p)
            &&& if st.show_reposts {
                is_top(repost_candidates(s, did, st, bound, s.reposts), limit, r)
            } else {
                r.len() == 0
            }
            &&& is_top(p + r, final_count(p.len() + r.len(), limit), rows)
        }
}

proof fn lemma_post_candidates(
    s: StoreState,
    did: Seq<char>,
    st: FeedSettings,
    bound: Option<i64>,
    ps: Seq<Post>,
)
    requires
        keys_unique(ps),
    ensures
        post_candidates(s, did, st, bound, ps).no_duplicates(),
        forall|x: FeedRowView| #[trigger]
            post_candidates(s, did, st, bound, ps).contains(x) ==> has_key(ps, x.uri)
                && x.quote_uri.is_none(),
    decreases ps.len(),
{
    if ps.len() > 0 {
        let d = ps.drop_last();
        assert(keys_unique(d)) by {
            assert forall|i: int, j: int|
                0 <= i < d.len() && 0 <= j < d.len() && i != j implies (#[trigger] d[i]).uri@ != (
                #[trigger] d[j]).uri@ by {
                assert(d[i] == ps[i] && d[j] == ps[j]);
            }
        }
        lemma_post_candidates(s, did, st, bound, d);
        let rest = post_candidates(s, did, st, bound, d);
        let l = ps.last();
        assert forall|x: FeedRowView| has_key(d, x.uri) implies has_key(ps, x.uri) by {
            let i = choose|i: int| 0 <= i < d.len() && (#[trigger] d[i]).uri@ == x.uri;
            assert(ps[i] == d[i]);
        }
        assert(has_key(ps, l.uri@)) by {
            assert(ps[ps.len() - 1] == l);
        }
        if post_shown(s, did, st, bound, l) {
            let c = rest.push(post_row(l));
            assert(!has_key(d, l.uri@)) by {
                if has_key(d, l.uri@) {
                    let i = choose|i: int| 0 <= i < d.len() && (#[trigger] d[i]).uri@ == l.uri@;
                    assert(ps[i] == d[i]);
                    assert(ps[ps.len() - 1] == l);
                }
            }
            assert forall|x: FeedRowView| #[trigger] c.contains(x) implies has_key(ps, x.uri)
                && x.quote_uri.is_none() by {
                let j = choose|j: int| 0 <= j < c.len() && c[j] == x;
                if j < rest.len() {
                    assert(rest[j] == x);
                    assert(rest.contains(x));
                }
            }
            assert(c.no_duplicates()) by {
                assert forall|i: int, j: int|
                    0 <= i < c.len() && 0 <= j < c.len() && i != j implies c[i] != c[j] by {
                    if i == rest.len() {
                        assert(rest.contains(rest[j]));
                    } else if j == rest.len() {
                        assert(rest.contains(rest[i]));
                    } else {
                        assert(c[i] == rest[i] && c[j] == rest[j]);
                    }
                }
            }
        }
    }
}

proof fn lemma_repost_candidates(
    s: StoreState,
    did: Seq<char>,
    st: FeedSettings,
    bound: Option<i64>,
    rs: Seq<Repost>,
)
    requires
        keys_unique(rs),
    ensures
        repost_candidates(s, did, st, bound, rs).no_duplicates(),
        forall|x: FeedRowView| #[trigger]
            repost_candidates(s, did, st, bound, rs).contains(x) ==> has_key(rs, x.uri)
                && x.quote_uri.is_some(),
    decreases rs.len(),
{
    if rs.len() > 0 {
        let d = rs.drop_last();
        assert(keys_unique(d)) by {
            assert forall|i: int, j: int|
                0 <= i < d.len() && 0 <= j < d.len() && i != j implies (#[trigger] d[i]).uri@ != (
                #[trigger] d[j]).uri@ by {
                assert(d[i] == rs[i] && d[j] == rs[j]);
            }
        }
        lemma_repost_candidates(s, did, st, bound, d);
        let rest = repost_candidates(s, did, st, bound, d);
        let l = rs.last();
        assert forall|x: FeedRowView| has_key(d, x.uri) implies has_key(rs, x.uri) by {
            let i = choose|i: int| 0 <= i < d.len() && (#[trigger] d[i]).uri@ == x.uri;
            assert(rs[i] == d[i]);
        }
        assert(has_key(rs, l.uri@)) by {
            assert(rs[rs.len() - 1] == l);
        }
        if repost_shown(s, did, st, bound, l) {
            let c = rest.push(repost_row(l));
            assert(!has_key(d, l.uri@)) by {
                if has_key(d, l.uri@) {
                    let i = choose|i: int| 0 <= i < d.len() && (#[trigger] d[i]).uri@ == l.uri@;
                    assert(rs[i] == d[i]);
                    assert(rs[rs.len() - 1] == l);
                }
            }
            assert forall|x: FeedRowView| #[trigger] c.contains(x) implies has_key(rs, x.uri)
                && x.quote_uri.is_some() by {
                let j = choose|j: int| 0 <= j < c.len() && c[j] == x;
                if j < rest.len() {
                    assert(rest[j] == x);
                    assert(rest.contains(x));
                }
            }
            assert(c.no_duplicates()) by {
                assert forall|i: int, j: int|
                    0 <= i < c.len() && 0 <= j < c.len() && i != j implies c[i] != c[j] by {
                    if i == rest.len() {
                        assert(rest.contains(rest[j]));
                    } else if j == rest.len() {
                        assert(rest.contains(rest[i]));
                    } else {
                        assert(c[i] == rest[i] && c[j] == rest[j]);
                    }
                }
            }
        }
    }
}

/// `fl` lists exactly the accounts that `did` follows.
pub open spec fn is_follow_list(s: StoreState, did: Seq<char>, fl: Seq<String>) -> bool {
    forall|a: Seq<char>| #[trigger] strings_view(fl).contains(a) <==> follows_account(s, did, a)
}

proof fn lemma_concat_distinct(a: Seq<FeedRowView>, b: Seq<FeedRowView>)
    requires
        a.no_duplicates(),
        b.no_duplicates(),
        forall|i: int| 0 <= i < a.len() ==> (#[trigger] a[i]).quote_uri.is_none(),
        forall|i: int| 0 <= i < b.len() ==> (#[trigger] b[i]).quote_uri.is_some(),
    ensures
        (a + b).no_duplicates(),
{
    let c = a + b;
    assert forall|i: int, j: int| 0 <= i < c.len() && 0 <= j < c.len() && i != j implies c[i]
        != c[j] by {
        if i < a.len() && j < a.len() {
            assert(c[i] == a[i] && c[j] == a[j]);
        } else if i >= a.len() && j >= a.len() {
            assert(c[i] == b[i - a.len()] && c[j] == b[j - a.len()]);
        } else if i < a.len() {
            assert(c[i] == a[i] && c[j] == b[j - a.len()]);
        } else {
            assert(c[j] == a[j] && c[i] == b[i - a.len()]);
        }
    }
}

/// Appends copies of the rows of `src`.
pub fn append_rows(dst: &mut Vec<FeedRow>, src: &Vec<FeedRow>)
    ensures
        final(dst)@ == old(dst)@ + src@,
{
    let ghost start = dst@;
    let mut i: usize = 0;
    while i < src.len()
        invariant
            i <= src.len(),
            dst@ == start + src@.subrange(0, i as int),
        decreases src.len() - i,
    {
        dst.push(src[i].copy());
        assert(dst@ =~= start + src@.subrange(0, i + 1));
        i += 1;
    }
    assert(src@.subrange(0, src.len() as int) =~= src@);
}

impl FeedStore {
    /// The rows of a page of `did`'s feed: see `page_rows`.
    pub fn feed_rows(&self, did: &String, limit: usize, bound: Option<i64>) -> (r: Vec<FeedRow>)
        requires
            self.wf(),
        ensures
            page_rows(self@, did@, limit as nat, bound, rows_view(r@)),
    {
        let fl = self.get_saved_follows(did);
        let st = crate::prefs::settings_of(&self.preferences, did);
        let posts = self.shown_posts(did, &fl, st, bound);
        proof {
            lemma_post_candidates(self@, did@, st, bound, self@.posts);
        }
        let p = top_rows(&posts, limit);
        let ghost pv = rows_view(p@);
        let ghost cp = post_candidates(self@, did@, st, bound, self@.posts);
        let ghost cr = repost_candidates(self@, did@, st, bound, self@.reposts);
        proof {
            assert forall|i: int| 0 <= i < pv.len() implies (#[trigger] pv[i]).quote_uri.is_none() by {
                assert(cp.contains(pv[i]));
            }
        }
        let mut merged: Vec<FeedRow> = Vec::new();
        append_rows(&mut merged, &p);
        let ghost mut rv: Seq<FeedRowView> = Seq::empty();
        if st.show_reposts {
            let reposts = self.shown_reposts(did, &fl, st, bound);
            proof {
                lemma_repost_candidates(self@, did@, st, bound, self@.reposts);
            }
            let r = top_rows(&reposts, limit);
            append_rows(&mut merged, &r);
            proof {
                rv = rows_view(r@);
                assert forall|i: int| 0 <= i < rv.len() implies (#[trigger] rv[i]).quote_uri.is_some() by {
                    assert(cr.contains(rv[i]));
                }
            }
        }
        proof {
            assert(rows_view(merged@) =~= pv + rv);
            lemma_concat_distinct(pv, rv);
        }
        let total = merged.len();
        let n: usize = if total >= MERGED_CUTOFF {
            if limit < total {
                limit
            } else {
                total
            }
        } else {
            total
        };
        let rows = top_rows(&merged, n);
        proof {
            assert(n == final_count(pv.len() + rv.len(), limit as nat));
            assert(is_top(cp, limit as nat, pv));
        }
        rows
    }
}

impl FeedStore {
    /// The accounts that `did` follows, one entry per stored edge.
    pub fn get_saved_follows(&self, did: &String) -> (r: Vec<String>)
        ensures
            is_follow_list(self@, did@, r@),
            r@.len() == 0 <==> !has_follows(self@, did@),
    {
        let mut r: Vec<String> = Vec::new();
        let mut i: usize = 0;
        while i < self.follows.len()
            invariant
                i <= self.follows.len(),
                forall|a: Seq<char>| #[trigger]
                    strings_view(r@).contains(a) <==> exists|j: int|
                        0 <= j < i && (#[trigger] self@.follows[j]).author@ == did@
                            && self@.follows[j].subject@ == a,
                r@.len() == 0 <==> forall|j: int|
                    0 <= j < i ==> (#[trigger] self@.follows[j]).author@ != did@,
            decreases self.follows.len() - i,
        {
            if self.follows[i].author == *did {
                let ghost before = strings_view(r@);
                r.push(self.follows[i].subject.clone());
                proof {
                    assert(strings_view(r@) =~= before.push(self@.follows[i as int].subject@));
                    assert forall|a: Seq<char>| #[trigger]
                        strings_view(r@).contains(a) <==> exists|j: int|
                            0 <= j < i + 1 && (#[trigger] self@.follows[j]).author@ == did@
                                && self@.follows[j].subject@ == a by {
                        if strings_view(r@).contains(a) {
                            let k = choose|k: int|
                                0 <= k < strings_view(r@).len() && strings_view(r@)[k] == a;
                            if k < before.len() {
                                assert(before[k] == a);
                                assert(before.contains(a));
                            }
                        }
                        if exists|j: int|
                            0 <= j < i + 1 && (#[trigger] self@.follows[j]).author@ == did@
                                && self@.follows[j].subject@ == a {
                            let j = choose|j: int|
                                0 <= j < i + 1 && (#[trigger] self@.follows[j]).author@ == did@
                                    && self@.follows[j].subject@ == a;
                            if j < i {
                                assert(0 <= j < i && self@.follows[j].author@ == did@
                                    && self@.follows[j].subject@ == a);
                                assert(before.contains(a));
                                let k = choose|k: int| 0 <= k < before.len() && before[k] == a;
                                assert(strings_view(r@)[k] == a);
                            } else {
                                assert(strings_view(r@)[before.len() as int] == a);
                            }
                        }
                    }
                }
            }
            i += 1;
        }
        r
    }

    /// Whether `did` has seen `uri`.
    pub fn is_seen(&self, did: &String, uri: &String) -> (r: bool)
        ensures
            r == seen_by(self@, did@, uri@),
    {
        let mut i: usize = 0;
        while i < self.seen.len()
            invariant
                i <= self.seen.len(),
                forall|j: int|
                    0 <= j < i ==> !((#[trigger] self@.seen[j]).did@ == did@ && self@.seen[j].uri@
                        == uri@),
            decreases self.seen.len() - i,
        {
            if self.seen[i].did == *did && self.seen[i].uri == *uri {
                assert(self@.seen[i as int] == self.seen@[i as int]);
                return true;
            }
            i += 1;
        }
        false
    }

    /// Whether `did` asked not to see the reposts of `a`.
    pub fn hides_reposts(&self, did: &String, a: &String) -> (r: bool)
        ensures
            r == hides_reposts_of(self@, did@, a@),
    {
        let mut i: usize = 0;
        while i < self.following_preferences.len()
            invariant
                i <= self.following_preferences.len(),
                forall|j: int|
                    0 <= j < i ==> !((#[trigger] self@.following_preferences[j]).author@ == did@
                        && self@.following_preferences[j].did@ == a@
                        && !self@.following_preferences[j].show_reposts),
            decreases self.following_preferences.len() - i,
        {
            let fp = &self.following_preferences[i];
            if fp.author == *did && fp.did == *a && !fp.show_reposts {
                assert(self@.following_preferences[i as int] == self.following_preferences@[i as int]);
                return true;
            }
            i += 1;
        }
        false
    }

    /// How many likes point at `uri`.
    pub fn count_likes(&self, uri: &String) -> (r: usize)
        ensures
            r == like_count(self@.likes, uri@),
    {
        let mut n: usize = 0;
        let mut i: usize = 0;
        while i < self.likes.len()
            invariant
                i <= self.likes.len(),
                n <= i,
                n == like_count(self@.likes.subrange(0, i as int), uri@),
            decreases self.likes.len() - i,
        {
            assert(self@.likes.subrange(0, i + 1).drop_last() =~= self@.likes.subrange(0, i as int));
            if self.likes[i].subject_uri == *uri {
                n += 1;
            }
            i += 1;
        }
        assert(self@.likes.subrange(0, self.likes.len() as int) =~= self@.likes);
        n
    }

    fn parent_is_followed(&self, did: &String, fl: &Vec<String>, parent: &String) -> (r: bool)
        requires
            is_follow_list(self@, did@, fl@),
        ensures
            r == parent_followed(self@, did@, parent@),
    {
        let mut i: usize = 0;
        while i < self.posts.len()
            invariant
                i <= self.posts.len(),
                is_follow_list(self@, did@, fl@),
                forall|j: int|
                    0 <= j < i && (#[trigger] self@.posts[j]).uri@ == parent@ ==> follows_account(
                        self@,
                        did@,
                        self@.posts[j].author@,
                    ),
            decreases self.posts.len() - i,
        {
            assert(self@.posts[i as int] == self.posts@[i as int]);
            if self.posts[i].uri == *parent {
                if !contains_string(fl, &self.posts[i].author) {
                    assert(!follows_account(self@, did@, self@.posts[i as int].author@));
                    return false;
                }
                assert(follows_account(self@, did@, self@.posts[i as int].author@));
            }
            i += 1;
        }
        true
    }

    fn post_is_shown(
        &self,
        did: &String,
        fl: &Vec<String>,
        st: FeedSettings,
        bound: Option<i64>,
        p: &Post,
    ) -> (r: bool)
        requires
            is_follow_list(self@, did@, fl@),
        ensures
            r == post_shown(self@, did@, st, bound, *p),
    {
        if !contains_string(fl, &p.author) {
            return false;
        }
        if !st.show_quote_posts && p.quote_uri.is_some() {
            return false;
        }
        if st.hide_no_alt_text && p.media && p.alt.is_none() {
            return false;
        }
        match &p.reply_parent {
            None => {},
            Some(parent) => {
                if !st.show_replies {
                    return false;
                }
                if st.reply_filter_followed_only && !self.parent_is_followed(did, fl, parent) {
                    return false;
                }
                let n = self.count_likes(parent);
                if st.reply_filter_likes > 0 && n < st.reply_filter_likes as usize {
                    return false;
                }
            },
        }
        if st.hide_seen_posts && self.is_seen(did, &p.uri) {
            return false;
        }
        match bound {
            Some(b) => p.indexed_at < b,
            None => true,
        }
    }

    fn repost_is_shown(
        &self,
        did: &String,
        fl: &Vec<String>,
        st: FeedSettings,
        bound: Option<i64>,
        r: &Repost,
    ) -> (res: bool)
        requires
            is_follow_list(self@, did@, fl@),
        ensures
            res == repost_shown(self@, did@, st, bound, *r),
    {
        if !contains_string(fl, &r.author) {
            return false;
        }
        if self.hides_reposts(did, &r.author) {
            return false;
        }
        if st.hide_seen_posts && self.is_seen(did, &r.uri) {
            return false;
        }
        match bound {
            Some(b) => r.indexed_at < b,
            None => true,
        }
    }

    /// The rows of the posts that `did` may see, in table order.
    pub fn shown_posts(&self, did: &String, fl: &Vec<String>, st: FeedSettings, bound: Option<i64>) -> (r: Vec<FeedRow>)
        requires
            is_follow_list(self@, did@, fl@),
        ensures
            rows_view(r@) == post_candidates(self@, did@, st, bound, self@.posts),
    {
        let mut out: Vec<FeedRow> = Vec::new();
        let mut i: usize = 0;
        assert(rows_view(out@) =~= Seq::<FeedRowView>::empty());
        while i < self.posts.len()
            invariant
                i <= self.posts.len(),
                is_follow_list(self@, did@, fl@),
                rows_view(out@) == post_candidates(
                    self@,
                    did@,
                    st,
                    bound,
                    self@.posts.subrange(0, i as int),
                ),
            decreases self.posts.len() - i,
        {
            let p = &self.posts[i];
            assert(self@.posts.subrange(0, i + 1).drop_last() =~= self@.posts.subrange(0, i as int));
            assert(self@.posts.subrange(0, i + 1).last() == *p);
            if self.post_is_shown(did, fl, st, bound, p) {
                let ghost before = rows_view(out@);
                out.push(FeedRow { uri: p.uri.clone(), cid: p.cid.clone(), indexed_at: p.indexed_at, quote_uri: None });
                assert(rows_view(out@) =~= before.push(post_row(*p)));
            }
            i += 1;
        }
        assert(self@.posts.subrange(0, self.posts.len() as int) =~= self@.posts);
        out
    }

    /// The rows of the reposts that `did` may see, in table order.
    pub fn shown_reposts(&self, did: &String, fl: &Vec<String>, st: FeedSettings, bound: Option<i64>) -> (r: Vec<FeedRow>)
        requires
            is_follow_list(self@, did@, fl@),
        ensures
            rows_view(r@) == repost_candidates(self@, did@, st, bound, self@.reposts),
    {
        let mut out: Vec<FeedRow> = Vec::new();
        let mut i: usize = 0;
        assert(rows_view(out@) =~= Seq::<FeedRowView>::empty());
        while i < self.reposts.len()
            invariant
                i <= self.reposts.len(),
                is_follow_list(self@, did@, fl@),
                rows_view(out@) == repost_candidates(
                    self@,
                    did@,
                    st,
                    bound,
                    self@.reposts.subrange(0, i as int),
                ),
            decreases self.reposts.len() - i,
        {
            let r = &self.reposts[i];
            assert(self@.reposts.subrange(0, i + 1).drop_last() =~= self@.reposts.subrange(0, i as int));
            assert(self@.reposts.subrange(0, i + 1).last() == *r);
            if self.repost_is_shown(did, fl, st, bound, r) {
                let ghost before = rows_view(out@);
                out.push(FeedRow { uri: r.uri.clone(), cid: r.cid.clone(), indexed_at: r.indexed_at, quote_uri: Some(r.subject_uri.clone()) });
                assert(rows_view(out@) =~= before.push(repost_row(*r)));
            }
            i += 1;
        }
        assert(self@.reposts.subrange(0, self.reposts.len() as int) =~= self@.reposts);
        out
    }
}

/// The reason type of an entry that is in the feed because it was reposted.
pub const REPOST_REASON: &'static str = "app.bsky.feed.defs#skeletonReasonRepost";

pub open spec fn result_view(p: PostResult) -> (Seq<char>, Option<(Seq<char>, Seq<char>)>) {
    (
        p.post@,
        match p.reason {
            Some(r) => Some((r.reason_type@, r.repost_uri@)),
            None => None,
        },
    )
}

/// A post renders as itself; a repost renders as the post it points at, with the repost as
/// the reason.
pub open spec fn rendered(row: FeedRowView) -> (Seq<char>, Option<(Seq<char>, Seq<char>)>) {
    match row.quote_uri {
        Some(q) => (q, Some((REPOST_REASON@, row.uri))),
        None => (row.uri, None),
    }
}

/// The cursor after a page: that of its last row, none for an empty page.
pub open spec fn next_cursor(rows: Seq<FeedRowView>) -> Option<Seq<char>> {
    if rows.len() == 0 {
        None
    } else {
        Some(cursor_text(rows.last().indexed_at as int, rows.last().cid))
    }
}

/// `resp` renders `rows`.
pub open spec fn is_page_of(rows: Seq<FeedRowView>, resp: AlgoResponse) -> bool {
    &&& resp.feed@.map_values(|p: PostResult| result_view(p)) == rows.map_values(
        |r: FeedRowView| rendered(r),
    )
    &&& opt_view(resp.cursor) == next_cursor(rows)
}

/// The limit a request asks for.
pub open spec fn limit_of(limit: Option<i64>) -> int {
    match limit {
        Some(l) => l as int,
        None => 30,
    }
}

/// The limit is not negative and fits the machine's sizes.
pub open spec fn limit_ok(limit: Option<i64>) -> bool {
    0 <= limit_of(limit) <= usize::MAX
}

/// The bound a request's cursor gives, or `None` when the cursor is malformed.
pub open spec fn bound_of(cursor: Option<&str>) -> Option<Option<i64>> {
    match cursor {
        None => Some(None),
        Some(c) => cursor_bound(c@),
    }
}

/// A valid feed request for `did` on `s` answered `resp` and left `s2`.
pub open spec fn feed_request(
    s: StoreState,
    did: String,
    limit: int,
    has_cursor: bool,
    bound: Option<i64>,
    resp: AlgoResponse,
    s2: StoreState,
) -> bool {
    if !has_follows(s, did@) {
        resp.feed@.len() == 0 && resp.cursor.is_none() && s2 == s
    } else {
        let st = settings_for(s.preferences, did@);
        let m = seen_step(s, did@, st, limit, has_cursor);
        exists|rows: Seq<FeedRow>|
            {
                &&& page_rows(m, did@, limit as nat, bound, rows_view(rows))
                &&& is_page_of(rows_view(rows), resp)
                &&& s2 == if st.hide_seen_posts && limit != 1 {
                    StoreState { fetched: m.fetched + fetched_rows(did, rows), ..m }
                } else {
                    m
                }
            }
    }
}

/// Renders rows as a feed page with the cursor of the last row.
pub fn render_page(rows: &Vec<FeedRow>) -> (r: AlgoResponse)
    ensures
        is_page_of(rows_view(rows@), r),
{
    let ghost rv = rows_view(rows@);
    let mut feed: Vec<PostResult> = Vec::new();
    let mut i: usize = 0;
    while i < rows.len()
        invariant
            i <= rows.len(),
            rv == rows_view(rows@),
            feed@.map_values(|p: PostResult| result_view(p)) == rv.subrange(0, i as int).map_values(
                |r: FeedRowView| rendered(r),
            ),
        decreases rows.len() - i,
    {
        let row = &rows[i];
        let ghost before = feed@;
        let entry = match &row.quote_uri {
            Some(q) => PostResult {
                post: q.clone(),
                reason: Some(
                    PostResultReason {
                        reason_type: String::from_str(REPOST_REASON),
                        repost_uri: row.uri.clone(),
                    },
                ),
            },
            None => PostResult { post: row.uri.clone(), reason: None },
        };
        assert(result_view(entry) == rendered(rv[i as int]));
        feed.push(entry);
        assert(feed@.map_values(|p: PostResult| result_view(p)) =~= before.map_values(
            |p: PostResult| result_view(p),
        ).push(result_view(entry)));
        assert(rv.subrange(0, i + 1).map_values(|r: FeedRowView| rendered(r)) =~= rv.subrange(
            0,
            i as int,
        ).map_values(|r: FeedRowView| rendered(r)).push(rendered(rv[i as int])));
        i += 1;
    }
    assert(rv.subrange(0, i as int) =~= rv);
    let cursor = if rows.len() == 0 {
        None
    } else {
        let last = &rows[rows.len() - 1];
        Some(encode_cursor(last.indexed_at, &last.cid))
    };
    AlgoResponse { cursor, feed }
}

/// Checks a request's limit and cursor: the limit (30 when absent) must not be negative (nor
/// beyond `usize`), and the cursor must have exactly two fields.
pub fn check_request(limit: Option<i64>, cursor: Option<&str>) -> (r: Result<(usize, Option<i64>), FeedError>)
    ensures
        match r {
            Ok((l, b)) => limit_ok(limit) && l == limit_of(limit) && bound_of(cursor) == Some(b),
            Err(e) => e == FeedError::Validation && (!limit_ok(limit) || bound_of(cursor).is_none()),
        },
{
    let l: i64 = match limit {
        Some(l) => l,
        None => DEFAULT_LIMIT,
    };
    if l < 0 || l as u64 > usize::MAX as u64 {
        return Err(FeedError::Validation);
    }
    let bound = match cursor {
        None => None,
        Some(c) => match parse_cursor(c) {
            None => return Err(FeedError::Validation),
            Some(b) => b,
        },
    };
    Ok((l as usize, bound))
}

impl FeedStore {
    /// A page of `did`'s feed: posts and reposts of the accounts it follows, newest first,
    /// filtered by its preferences, after the cursor's timestamp.
    pub fn get_posts_by_user_feed(
        &mut self,
        did: &String,
        limit: Option<i64>,
        cursor: Option<&str>,
    ) -> (r: Result<AlgoResponse, FeedError>)
        requires
            old(self).wf(),
        ensures
            final(self).wf(),
            match r {
                Err(e) => e == FeedError::Validation && final(self)@ == old(self)@ && (!limit_ok(limit)
                    || bound_of(cursor).is_none()),
                Ok(resp) => limit_ok(limit) && bound_of(cursor).is_some() && feed_request(
                    old(self)@,
                    *did,
                    limit_of(limit),
                    cursor.is_some(),
                    bound_of(cursor).unwrap(),
                    resp,
                    final(self)@,
                ),
            },
    {
        let (lim, bound) = match check_request(limit, cursor) {
            Ok(v) => v,
            Err(e) => return Err(e),
        };
        let fl = self.get_saved_follows(did);
        if fl.len() == 0 {
            return Ok(AlgoResponse { cursor: None, feed: Vec::new() });
        }
        let st = crate::prefs::settings_of(&self.preferences, did);
        let ghost s0 = self@;
        if st.hide_seen_posts && lim != 1 {
            match cursor {
                None => self.invalidate_all_fetched_posts(did),
                Some(_) => {
                    if self.get_total_fetches(did) >= crate::seen::GRADUATION_THRESHOLD {
                        self.update_seen_posts(did);
                    }
                },
            }
        }
        assert(self@ == seen_step(s0, did@, st, lim as int, cursor.is_some()));
        let rows = self.feed_rows(did, lim, bound);
        let page = render_page(&rows);
        let ghost m = self@;
        if st.hide_seen_posts && lim != 1 {
            self.insert_fetched_posts(did, &rows);
        }
        assert(settings_for(s0.preferences, did@) == st);
        Ok(page)
    }
}

/// Whether post `p` belongs in `did`'s media feed below `bound`.
pub open spec fn media_shown(s: StoreState, did: Seq<char>, bound: Option<i64>, p: Post) -> bool {
    follows_account(s, did, p.author@) && p.media && before_bound(bound, p.indexed_at)
}

pub open spec fn media_candidates(s: StoreState, did: Seq<char>, bound: Option<i64>, ps: Seq<Post>) -> Seq<FeedRowView>
    decreases ps.len(),
{
    if ps.len() == 0 {
        Seq::empty()
    } else {
        let rest = media_candidates(s, did, bound, ps.drop_last());
        if media_shown(s, did, bound, ps.last()) {
            rest.push(post_row(ps.last()))
        } else {
            rest
        }
    }
}

proof fn lemma_media_candidates(s: StoreState, did: Seq<char>, bound: Option<i64>, ps: Seq<Post>)
    requires
        keys_unique(ps),
    ensures
        media_candidates(s, did, bound, ps).no_duplicates(),
        forall|x: FeedRowView| #[trigger]
            media_candidates(s, did, bound, ps).contains(x) ==> has_key(ps, x.uri),
    decreases ps.len(),
{
    if ps.len() > 0 {
        let d = ps.drop_last();
        assert(keys_unique(d)) by {
            assert forall|i: int, j: int|
                0 <= i < d.len() && 0 <= j < d.len() && i != j implies (#[trigger] d[i]).uri@ != (
                #[trigger] d[j]).uri@ by {
                assert(d[i] == ps[i] && d[j] == ps[j]);
            }
        }
        lemma_media_candidates(s, did, bound, d);
        let rest = media_candidates(s, did, bound, d);
        let l = ps.last();
        assert forall|x: FeedRowView| has_key(d, x.uri) implies has_key(ps, x.uri) by {
            let i = choose|i: int| 0 <= i < d.len() && (#[trigger] d[i]).uri@ == x.uri;
            assert(ps[i] == d[i]);
        }
        assert(has_key(ps, l.uri@)) by {
            assert(ps[ps.len() - 1] == l);
        }
        if media_shown(s, did, bound, l) {
            let c = rest.push(post_row(l));
            assert(!has_key(d, l.uri@)) by {
                if has_key(d, l.uri@) {
                    let i = choose|i: int| 0 <= i < d.len() && (#[trigger] d[i]).uri@ == l.uri@;
                    assert(ps[i] == d[i]);
                    assert(ps[ps.len() - 1] == l);
                }
            }
            assert forall|x: FeedRowView| #[trigger] c.contains(x) implies has_key(ps, x.uri) by {
                let j = choose|j: int| 0 <= j < c.len() && c[j] == x;
                if j < rest.len() {
                    assert(rest[j] == x);
                    assert(rest.contains(x));
                }
            }
            assert(c.no_duplicates()) by {
                assert forall|i: int, j: int|
                    0 <= i < c.len() && 0 <= j < c.len() && i != j implies c[i] != c[j] by {
                    if i == rest.len() {
                        assert(rest.contains(rest[j]));
                    } else if j == rest.len() {
                        assert(rest.contains(rest[i]));
                    } else {
                        assert(c[i] == rest[i] && c[j] == rest[j]);
                    }
                }
            }
        }
    }
}

impl FeedStore {
    /// A page of the media posts of the accounts that `did` follows, newest first.
    pub fn get_posts_by_following_media(
        &self,
        did: &String,
        limit: Option<i64>,
        cursor: Option<&str>,
    ) -> (r: Result<AlgoResponse, FeedError>)
        requires
            self.wf(),
        ensures
            match r {
                Err(e) => e == FeedError::Validation && (!limit_ok(limit) || bound_of(cursor).is_none()),
                Ok(resp) => limit_ok(limit) && bound_of(cursor).is_some() && exists|rows: Seq<FeedRow>|
                    {
                        &&& is_top(
                            media_candidates(self@, did@, bound_of(cursor).unwrap(), self@.posts),
                            limit_of(limit) as nat,
                            rows_view(rows),
                        )
                        &&& is_page_of(rows_view(rows), resp)
                    },
            },
    {
        let (lim, bound) = match check_request(limit, cursor) {
            Ok(v) => v,
            Err(e) => return Err(e),
        };
        let fl = self.get_saved_follows(did);
        let mut cands: Vec<FeedRow> = Vec::new();
        let mut i: usize = 0;
        assert(rows_view(cands@) =~= Seq::<FeedRowView>::empty());
        while i < self.posts.len()
            invariant
                i <= self.posts.len(),
                is_follow_list(self@, did@, fl@),
                rows_view(cands@) == media_candidates(self@, did@, bound, self@.posts.subrange(0, i as int)),
            decreases self.posts.len() - i,
        {
            let p = &self.posts[i];
            assert(self@.posts.subrange(0, i + 1).drop_last() =~= self@.posts.subrange(0, i as int));
            assert(self@.posts.subrange(0, i + 1).last() == *p);
            let below = match bound {
                Some(b) => p.indexed_at < b,
                None => true,
            };
            if p.media && below && contains_string(&fl, &p.author) {
                let ghost before = rows_view(cands@);
                cands.push(FeedRow { uri: p.uri.clone(), cid: p.cid.clone(), indexed_at: p.indexed_at, quote_uri: None });
                assert(rows_view(cands@) =~= before.push(post_row(*p)));
            }
            i += 1;
        }
        assert(self@.posts.subrange(0, self.posts.len() as int) =~= self@.posts);
        proof {
            lemma_media_candidates(self@, did@, bound, self@.posts);
        }
        let rows = top_rows(&cands, lim);
        Ok(render_page(&rows))
    }
}

} // verus!

//! Properties that hold across calls, proved from the specifications of the operations.
use vstd::prelude::*;

use crate::cursor::{cursor_bound, cursor_text, has_sep, lemma_cursor_round_trip};
use crate::feed::{
    before_bound, feed_request, is_page_of, page_rows, post_candidates, post_shown, rendered,
    repost_candidates, repost_shown, result_view, seen_by,
};
use crate::ingest::{create_step, creates_ok};
use crate::model::{
    Collection, CreateRequest, FeedSettings, Post, PostResult, Record, Repost, UserFeedPreference,
    default_settings,
};
use crate::order::{is_top, key_lt, sorted_desc, FeedRowView};
use crate::prefs::{
    change_prefs, changed_row, has_pref, like_command, settings_for, PrefChange,
    DONT_SHOW_QUOTEPOSTS, DONT_SHOW_REPOSTS, RESET_PREF,
};
use crate::seen::{as_seen, fetched_of, graduates, seen_step};
use crate::store::StoreState;
use crate::table::has_key;

verus! {

/// The uri is stored in the table of collection `kind`.
pub open spec fn stored_in(s: StoreState, kind: Collection, u: Seq<char>) -> bool {
    match kind {
        Collection::Posts => has_key(s.posts, u),
        Collection::Reposts => has_key(s.reposts, u),
        Collection::Likes => has_key(s.likes, u),
        Collection::Follows => has_key(s.follows, u),
    }
}

/// Applying create events whose uris are all stored already changes nothing: no duplicate
/// row, no preference change.
pub proof fn lemma_reapply_create_is_noop(
    s: StoreState,
    kind: Collection,
    reqs: Seq<CreateRequest>,
    now: i64,
    s2: StoreState,
)
    requires
        creates_ok(s, kind, reqs, now, s2),
        forall|i: int| 0 <= i < reqs.len() ==> stored_in(s, kind, (#[trigger] reqs[i]).uri@),
    ensures
        s2 == s,
    decreases reqs.len(),
{
    if reqs.len() > 0 {
        let mid = choose|mid: StoreState|
            creates_ok(s, kind, reqs.drop_last(), now, mid) && create_step(
                mid,
                kind,
                reqs.last(),
                now,
                s2,
            );
        assert forall|i: int| 0 <= i < reqs.drop_last().len() implies stored_in(
            s,
            kind,
            (#[trigger] reqs.drop_last()[i]).uri@,
        ) by {
            assert(reqs.drop_last()[i] == reqs[i]);
        }
        lemma_reapply_create_is_noop(s, kind, reqs.drop_last(), now, mid);
        assert(stored_in(s, kind, reqs[reqs.len() - 1].uri@));
    }
}

/// A row that may stand in a page: below the bound, and not seen when seen posts are hidden.
pub open spec fn row_allowed(
    s: StoreState,
    did: Seq<char>,
    st: FeedSettings,
    bound: Option<i64>,
    x: FeedRowView,
) -> bool {
    before_bound(bound, x.indexed_at) && (st.hide_seen_posts ==> !seen_by(s, did, x.uri))
}

proof fn lemma_post_candidates_allowed(
    s: StoreState,
    did: Seq<char>,
    st: FeedSettings,
    bound: Option<i64>,
    ps: Seq<Post>,
)
    ensures
        forall|x: FeedRowView| #[trigger]
            post_candidates(s, did, st, bound, ps).contains(x) ==> row_allowed(s, did, st, bound, x)
                && x.quote_uri.is_none(),
    decreases ps.len(),
{
    if ps.len() > 0 {
        lemma_post_candidates_allowed(s, did, st, bound, ps.drop_last());
        let rest = post_candidates(s, did, st, bound, ps.drop_last());
        assert forall|x: FeedRowView| #[trigger]
            post_candidates(s, did, st, bound, ps).contains(x) implies row_allowed(
            s,
            did,
            st,
            bound,
            x,
        ) && x.quote_uri.is_none() by {
            let c = post_candidates(s, did, st, bound, ps);
            let j = choose|j: int| 0 <= j < c.len() && c[j] == x;
            if j < rest.len() {
                assert(rest[j] == x);
                assert(rest.contains(x));
            }
        }
    }
}

proof fn lemma_repost_candidates_allowed(
    s: StoreState,
    did: Seq<char>,
    st: FeedSettings,
    bound: Option<i64>,
    rs: Seq<Repost>,
)
    ensures
        forall|x: FeedRowView| #[trigger]
            repost_candidates(s, did, st, bound, rs).contains(x) ==> row_allowed(
                s,
                did,
                st,
                bound,
                x,
            ),
    decreases rs.len(),
{
    if rs.len() > 0 {
        lemma_repost_candidates_allowed(s, did, st, bound, rs.drop_last());
        let rest = repost_candidates(s, did, st, bound, rs.drop_last());
        assert forall|x: FeedRowView| #[trigger]
            repost_candidates(s, did, st, bound, rs).contains(x) implies row_allowed(
            s,
            did,
            st,
            bound,
            x,
        ) by {
            let c = repost_candidates(s, did, st, bound, rs);
            let j = choose|j: int| 0 <= j < c.len() && c[j] == x;
            if j < rest.len() {
                assert(rest[j] == x);
                assert(rest.contains(x));
            }
        }
    }
}

/// Every row of a page is allowed, and a page without reposts shown holds posts only.
pub proof fn lemma_page_rows_allowed(
    s: StoreState,
    did: Seq<char>,
    limit: nat,
    bound: Option<i64>,
    rows: Seq<FeedRowView>,
)
    requires
        page_rows(s, did, limit, bound, rows),
    ensures
        forall|i: int|
            0 <= i < rows.len() ==> row_allowed(
                s,
                did,
                settings_for(s.preferences, did),
                bound,
                #[trigger] rows[i],
            ),
        !settings_for(s.preferences, did).show_reposts ==> forall|i: int|
            0 <= i < rows.len() ==> (#[trigger] rows[i]).quote_uri.is_none(),
{
    let st = settings_for(s.preferences, did);
    let (p, r) = choose|p: Seq<FeedRowView>, r: Seq<FeedRowView>|
        {
            &&& is_top(post_candidates(s, did, st, bound, s.posts), limit, p)
            &&& if st.show_reposts {
                is_top(repost_candidates(s, did, st, bound, s.reposts), limit, r)
            } else {
                r.len() == 0
            }
            &&& is_top(p + r, crate::feed::final_count(p.len() + r.len(), limit), rows)
        };
    lemma_post_candidates_allowed(s, did, st, bound, s.posts);
    lemma_repost_candidates_allowed(s, did, st, bound, s.reposts);
    let cp = post_candidates(s, did, st, bound, s.posts);
    let cr = repost_candidates(s, did, st, bound, s.reposts);
    assert forall|i: int| 0 <= i < rows.len() implies row_allowed(
        s,
        did,
        st,
        bound,
        #[trigger] rows[i],
    ) && (!st.show_reposts ==> rows[i].quote_uri.is_none()) by {
        let x = rows[i];
        assert((p + r).contains(x));
        let j = choose|j: int| 0 <= j < (p + r).len() && (p + r)[j] == x;
        if j < p.len() {
            assert(p[j] == x);
            assert(cp.contains(x));
        } else {
            assert(r[j - p.len()] == x);
            assert(cr.contains(x));
        }
    }
}

/// Within a page, entries never get newer: they are non-increasing in (indexedAt, content id).
pub proof fn lemma_page_is_ordered(
    s: StoreState,
    did: Seq<char>,
    limit: nat,
    bound: Option<i64>,
    rows: Seq<FeedRowView>,
)
    requires
        page_rows(s, did, limit, bound, rows),
    ensures
        sorted_desc(rows),
        forall|i: int, j: int|
            0 <= i < j < rows.len() ==> !key_lt(#[trigger] rows[i], #[trigger] rows[j]),
{
}

/// Asking again with the cursor of a non-empty page gives only entries strictly older than
/// that cursor's timestamp (for content identifiers without `::`, as they all are).
pub proof fn lemma_next_page_is_older(
    s: StoreState,
    did: Seq<char>,
    limit: nat,
    bound: Option<i64>,
    rows: Seq<FeedRowView>,
    s2: StoreState,
    limit2: nat,
    bound2: Option<i64>,
    rows2: Seq<FeedRowView>,
)
    requires
        page_rows(s, did, limit, bound, rows),
        rows.len() > 0,
        !has_sep(rows.last().cid),
        cursor_bound(cursor_text(rows.last().indexed_at as int, rows.last().cid)) == Some(bound2),
        page_rows(s2, did, limit2, bound2, rows2),
    ensures
        forall|i: int| 0 <= i < rows2.len() ==> (#[trigger] rows2[i]).indexed_at < rows.last().indexed_at,
{
    lemma_cursor_round_trip(rows.last().indexed_at, rows.last().cid);
    lemma_page_rows_allowed(s2, did, limit2, bound2, rows2);
    assert forall|i: int| 0 <= i < rows2.len() implies (#[trigger] rows2[i]).indexed_at
        < rows.last().indexed_at by {
        assert(row_allowed(s2, did, settings_for(s2.preferences, did), bound2, rows2[i]));
    }
}

/// Two states that differ at most in their preference tables.
pub open spec fn same_content(s: StoreState, t: StoreState) -> bool {
    &&& s.follows == t.follows
    &&& s.posts == t.posts
    &&& s.reposts == t.reposts
    &&& s.likes == t.likes
    &&& s.following_preferences == t.following_preferences
    &&& s.fetched == t.fetched
    &&& s.seen == t.seen
    &&& s.cursors == t.cursors
}

proof fn lemma_candidates_same_content(
    s: StoreState,
    t: StoreState,
    did: Seq<char>,
    st: FeedSettings,
    bound: Option<i64>,
    ps: Seq<Post>,
    rs: Seq<Repost>,
)
    requires
        same_content(s, t),
    ensures
        post_candidates(s, did, st, bound, ps) == post_candidates(t, did, st, bound, ps),
        repost_candidates(s, did, st, bound, rs) == repost_candidates(t, did, st, bound, rs),
    decreases ps.len() + rs.len(),
{
    if ps.len() > 0 {
        lemma_candidates_same_content(s, t, did, st, bound, ps.drop_last(), rs);
        assert(post_shown(s, did, st, bound, ps.last()) == post_shown(t, did, st, bound, ps.last()));
    }
    if rs.len() > 0 {
        lemma_candidates_same_content(s, t, did, st, bound, ps, rs.drop_last());
        assert(repost_shown(s, did, st, bound, rs.last()) == repost_shown(
            t,
            did,
            st,
            bound,
            rs.last(),
        ));
    }
}

/// An account without a preference row gets exactly what a row of the defaults gives: the
/// same settings, the same pages, and the same changes to its seen-post window.
pub proof fn lemma_missing_prefs_are_defaults(
    s: StoreState,
    did: String,
    limit: nat,
    bound: Option<i64>,
    has_cursor: bool,
    rows: Seq<FeedRowView>,
)
    requires
        !has_pref(s.preferences, did@),
    ensures
        ({
            let t = StoreState {
                preferences: s.preferences.push(UserFeedPreference::with_defaults_spec(did)),
                ..s
            };
            &&& settings_for(s.preferences, did@) == default_settings()
            &&& settings_for(t.preferences, did@) == default_settings()
            &&& page_rows(s, did@, limit, bound, rows) == page_rows(t, did@, limit, bound, rows)
            &&& seen_step(t, did@, default_settings(), limit as int, has_cursor) == (StoreState {
                preferences: t.preferences,
                ..seen_step(s, did@, default_settings(), limit as int, has_cursor)
            })
        }),
{
    let t = StoreState {
        preferences: s.preferences.push(UserFeedPreference::with_defaults_spec(did)),
        ..s
    };
    let ps = t.preferences;
    assert(ps[s.preferences.len() as int].did@ == did@);
    assert(has_pref(ps, did@));
    let k = choose|k: int| 0 <= k < ps.len() && (#[trigger] ps[k]).did@ == did@;
    if k < s.preferences.len() {
        assert(ps[k] == s.preferences[k]);
    }
    assert(settings_for(t.preferences, did@) == default_settings());
    let st = default_settings();
    lemma_candidates_same_content(s, t, did@, st, bound, s.posts, s.reposts);
}

/// A like of the hide-reposts sentinel turns reposts off for the liker, and the next page
/// of the liker's feed renders no entry as a repost.
pub proof fn lemma_hide_reposts_like(
    s: StoreState,
    req: CreateRequest,
    now: i64,
    s2: StoreState,
    limit: int,
    has_cursor: bool,
    bound: Option<i64>,
    resp: crate::model::AlgoResponse,
    s3: StoreState,
)
    requires
        req.record matches Record::Like(rec) && rec.subject.uri@ == DONT_SHOW_REPOSTS@,
        !has_key(s.likes, req.uri@),
        create_step(s, Collection::Likes, req, now, s2),
        feed_request(s2, req.author, limit, has_cursor, bound, resp, s3),
    ensures
        !settings_for(s2.preferences, req.author@).show_reposts,
        forall|i: int| 0 <= i < resp.feed@.len() ==> (#[trigger] resp.feed@[i]).reason.is_none(),
{
    reveal_strlit("at://did:plc:cimwguwdlh2i2mebdqczgcyl/app.bsky.feed.post/3l5fyptviqu2f");
    reveal_strlit("at://did:plc:cimwguwdlh2i2mebdqczgcyl/app.bsky.feed.post/3l5g74kd7my26");
    reveal_strlit("at://did:plc:cimwguwdlh2i2mebdqczgcyl/app.bsky.feed.post/3l5fyqh7fbr26");
    let rec = req.record->Like_0;
    assert(DONT_SHOW_REPOSTS@ != RESET_PREF@) by {
        assert(DONT_SHOW_REPOSTS@[60] != RESET_PREF@[60]);
    }
    assert(DONT_SHOW_REPOSTS@ != DONT_SHOW_QUOTEPOSTS@) by {
        assert(DONT_SHOW_REPOSTS@[62] != DONT_SHOW_QUOTEPOSTS@[62]);
    }
    assert(like_command(rec.subject.uri@) == Some(PrefChange::HideReposts));
    let author = req.author;
    let ps = s.preferences;
    let ps2 = if has_pref(ps, author@) {
        ps
    } else {
        ps.push(UserFeedPreference::with_defaults_spec(author))
    };
    let np = change_prefs(ps, author, PrefChange::HideReposts);
    assert(np == s2.preferences);
    assert(has_pref(ps2, author@)) by {
        if !has_pref(ps, author@) {
            assert(ps2[ps.len() as int].did@ == author@);
        }
    }
    let j = choose|j: int| 0 <= j < ps2.len() && (#[trigger] ps2[j]).did@ == author@;
    assert(np[j] == changed_row(ps2[j], PrefChange::HideReposts));
    assert(has_pref(np, author@));
    let k = choose|k: int| 0 <= k < np.len() && (#[trigger] np[k]).did@ == author@;
    assert(np[k] == changed_row(ps2[k], PrefChange::HideReposts));
    assert(!settings_for(s2.preferences, author@).show_reposts);
    if crate::feed::has_follows(s2, author@) {
        let st = settings_for(s2.preferences, author@);
        let m = seen_step(s2, author@, st, limit, has_cursor);
        assert(m.preferences == s2.preferences);
        let rows = choose|rows: Seq<crate::order::FeedRow>|
            {
                &&& page_rows(m, author@, limit as nat, bound, crate::order::rows_view(rows))
                &&& is_page_of(crate::order::rows_view(rows), resp)
                &&& s3 == if st.hide_seen_posts && limit != 1 {
                    StoreState { fetched: m.fetched + crate::seen::fetched_rows(author, rows), ..m }
                } else {
                    m
                }
            };
        let rv = crate::order::rows_view(rows);
        lemma_page_rows_allowed(m, author@, limit as nat, bound, rv);
        assert forall|i: int| 0 <= i < resp.feed@.len() implies (
        #[trigger] resp.feed@[i]).reason.is_none() by {
            let a = resp.feed@.map_values(|p: PostResult| result_view(p));
            let b = rv.map_values(|r: FeedRowView| rendered(r));
            assert(a.len() == resp.feed@.len());
            assert(b.len() == rv.len());
            assert(a[i] == b[i]);
            assert(settings_for(m.preferences, author@) == st);
            assert(rv[i].quote_uri.is_none());
            assert(a[i] == result_view(resp.feed@[i]));
            assert(b[i] == rendered(rv[i]));
        }
    }
}

proof fn lemma_fetched_of_did(fs: Seq<crate::model::FetchedPost>, did: Seq<char>)
    ensures
        forall|i: int|
            0 <= i < fetched_of(fs, did).len() ==> (#[trigger] fetched_of(fs, did)[i]).did@ == did,
    decreases fs.len(),
{
    if fs.len() > 0 {
        lemma_fetched_of_did(fs.drop_last(), did);
        let r = fetched_of(fs.drop_last(), did);
        assert forall|i: int| 0 <= i < fetched_of(fs, did).len() implies (#[trigger] fetched_of(
            fs,
            did,
        )[i]).did@ == did by {
            if i < r.len() {
                assert(fetched_of(fs, did)[i] == r[i]);
            }
        }
    }
}

/// Once seen posts are hidden and an account has at least the threshold of fetched rows, a
/// request with a cursor graduates the oldest of them into its seen posts; they stay seen
/// through any later request, with or without a cursor, and no later page shows them.
pub proof fn lemma_graduated_stay_hidden(
    s: StoreState,
    did: Seq<char>,
    limit: int,
    later_has_cursor: bool,
    limit2: nat,
    bound: Option<i64>,
    rows: Seq<FeedRowView>,
)
    requires
        settings_for(s.preferences, did).hide_seen_posts,
        limit != 1,
        fetched_of(s.fetched, did).len() >= 60,
    ensures
        ({
            let st = settings_for(s.preferences, did);
            let g = graduates(s.fetched, did);
            let m = seen_step(s, did, st, limit, true);
            let t = seen_step(m, did, st, limit, later_has_cursor);
            &&& forall|i: int| 0 <= i < g.len() ==> seen_by(m, did, (#[trigger] g[i]).uri@)
            &&& forall|i: int| 0 <= i < g.len() ==> seen_by(t, did, (#[trigger] g[i]).uri@)
            &&& page_rows(t, did, limit2, bound, rows) ==> forall|i: int, j: int|
                0 <= i < g.len() && 0 <= j < rows.len() ==> (#[trigger] rows[j]).uri != (
                #[trigger] g[i]).uri@
        }),
{
    let st = settings_for(s.preferences, did);
    let g = graduates(s.fetched, did);
    let m = seen_step(s, did, st, limit, true);
    let t = seen_step(m, did, st, limit, later_has_cursor);
    lemma_fetched_of_did(s.fetched, did);
    lemma_fetched_of_did(m.fetched, did);
    assert forall|i: int| 0 <= i < g.len() implies seen_by(m, did, (#[trigger] g[i]).uri@) by {
        let f = fetched_of(s.fetched, did);
        assert(g[i] == f[i]);
        let n = s.seen.len() as int;
        assert(m.seen[n + i] == as_seen(g)[i]);
        assert(m.seen[n + i].did@ == did && m.seen[n + i].uri@ == g[i].uri@);
    }
    assert forall|i: int| 0 <= i < g.len() implies seen_by(t, did, (#[trigger] g[i]).uri@) by {
        assert(seen_by(m, did, g[i].uri@));
        let k = choose|k: int|
            0 <= k < m.seen.len() && (#[trigger] m.seen[k]).did@ == did && m.seen[k].uri@ == g[i].uri@;
        assert(t.seen[k] == m.seen[k]);
    }
    if page_rows(t, did, limit2, bound, rows) {
        assert(t.preferences == s.preferences);
        lemma_page_rows_allowed(t, did, limit2, bound, rows);
        assert forall|i: int, j: int|
            0 <= i < g.len() && 0 <= j < rows.len() implies (#[trigger] rows[j]).uri != (
            #[trigger] g[i]).uri@ by {
            assert(row_allowed(t, did, st, bound, rows[j]));
            assert(seen_by(t, did, g[i].uri@));
        }
    }
}

} // verus!

//! Account preferences and the sentinel identifiers that act as commands on them.
use vstd::prelude::*;
use vstd::string::*;

use crate::model::{FeedSettings, UserFeedPreference, default_settings};

verus! {

pub const SHOW_REPLIES_FOR_FOLLOWING_ONLY: &'static str =
    "at://did:plc:cimwguwdlh2i2mebdqczgcyl/app.bsky.feed.post/3l5fyouhr7z26";

pub const DONT_SHOW_REPOSTS: &'static str =
    "at://did:plc:cimwguwdlh2i2mebdqczgcyl/app.bsky.feed.post/3l5fyptviqu2f";

pub const DONT_SHOW_QUOTEPOSTS: &'static str =
    "at://did:plc:cimwguwdlh2i2mebdqczgcyl/app.bsky.feed.post/3l5fyqh7fbr26";

pub const NUMBER_OF_LIKES: &'static str =
    "at://did:plc:cimwguwdlh2i2mebdqczgcyl/app.bsky.feed.post/3l5fyvglu472z";

pub const RESET_PREF: &'static str =
    "at://did:plc:cimwguwdlh2i2mebdqczgcyl/app.bsky.feed.post/3l5g74kd7my26";

pub const HIDE_SEEN_POSTS: &'static str =
    "at://did:plc:cimwguwdlh2i2mebdqczgcyl/app.bsky.feed.post/3l7edu2ufdp2u";

pub const HIDE_NOT_ALT_TEXT_POSTS: &'static str =
    "at://did:plc:cimwguwdlh2i2mebdqczgcyl/app.bsky.feed.post/3lbsxswsgus2f";

/// A change to one account's preferences.
#[derive(Clone, Copy, Debug, PartialEq, Eq, Structural)]
pub enum PrefChange {
    FollowedRepliesOnly,
    HideReposts,
    HideQuotePosts,
    HideSeenPosts,
    HideNoAltText,
    /// Remove the account's preferences: it is back to the defaults.
    Reset,
    /// Show replies only once their parent has this many likes.
    ReplyThreshold(i32),
}

/// The fixed table from sentinel identifiers that a like can point at to what the like does.
pub open spec fn like_command(uri: Seq<char>) -> Option<PrefChange> {
    if uri == RESET_PREF@ {
        Some(PrefChange::Reset)
    } else if uri == DONT_SHOW_QUOTEPOSTS@ {
        Some(PrefChange::HideQuotePosts)
    } else if uri == DONT_SHOW_REPOSTS@ {
        Some(PrefChange::HideReposts)
    } else if uri == SHOW_REPLIES_FOR_FOLLOWING_ONLY@ {
        Some(PrefChange::FollowedRepliesOnly)
    } else if uri == HIDE_SEEN_POSTS@ {
        Some(PrefChange::HideSeenPosts)
    } else if uri == HIDE_NOT_ALT_TEXT_POSTS@ {
        Some(PrefChange::HideNoAltText)
    } else {
        None
    }
}

/// Whether two strings hold the same characters.
pub fn str_eq(a: &str, b: &str) -> (r: bool)
    ensures
        r == (a@ == b@),
{
    let na = a.unicode_len();
    let nb = b.unicode_len();
    if na != nb {
        return false;
    }
    let mut i: usize = 0;
    while i < na
        invariant
            na == a@.len(),
            nb == b@.len(),
            na == nb,
            i <= na,
            forall|j: int| 0 <= j < i ==> a@[j] == b@[j],
        decreases na - i,
    {
        if a.get_char(i) != b.get_char(i) {
            return false;
        }
        i += 1;
    }
    assert(a@ =~= b@);
    true
}

/// What a like of `uri` does to the liker's preferences, if anything.
pub fn like_command_of(uri: &str) -> (r: Option<PrefChange>)
    ensures
        r == like_command(uri@),
{
    if str_eq(uri, RESET_PREF) {
        Some(PrefChange::Reset)
    } else if str_eq(uri, DONT_SHOW_QUOTEPOSTS) {
        Some(PrefChange::HideQuotePosts)
    } else if str_eq(uri, DONT_SHOW_REPOSTS) {
        Some(PrefChange::HideReposts)
    } else if str_eq(uri, SHOW_REPLIES_FOR_FOLLOWING_ONLY) {
        Some(PrefChange::FollowedRepliesOnly)
    } else if str_eq(uri, HIDE_SEEN_POSTS) {
        Some(PrefChange::HideSeenPosts)
    } else if str_eq(uri, HIDE_NOT_ALT_TEXT_POSTS) {
        Some(PrefChange::HideNoAltText)
    } else {
        None
    }
}

pub open spec fn has_pref(ps: Seq<UserFeedPreference>, did: Seq<char>) -> bool {
    exists|i: int| 0 <= i < ps.len() && (#[trigger] ps[i]).did@ == did
}

/// At most one row per account, and no negative like threshold.
pub open spec fn prefs_wf(ps: Seq<UserFeedPreference>) -> bool {
    &&& forall|i: int, j: int|
        0 <= i < ps.len() && 0 <= j < ps.len() && i != j ==> (#[trigger] ps[i]).did@ != (
        #[trigger] ps[j]).did@
    &&& forall|i: int| 0 <= i < ps.len() ==> (#[trigger] ps[i]).reply_filter_likes >= 0
}

/// The preferences in force for `did`: its row, or the defaults where it has none.
pub open spec fn settings_for(ps: Seq<UserFeedPreference>, did: Seq<char>) -> FeedSettings {
    if has_pref(ps, did) {
        ps[choose|i: int| 0 <= i < ps.len() && (#[trigger] ps[i]).did@ == did].settings_spec()
    } else {
        default_settings()
    }
}

/// One row with `c` applied (`Reset` has no effect on a row).
pub open spec fn changed_row(p: UserFeedPreference, c: PrefChange) -> UserFeedPreference {
    match c {
        PrefChange::FollowedRepliesOnly => UserFeedPreference { reply_filter_followed_only: true, ..p },
        PrefChange::HideReposts => UserFeedPreference { show_reposts: false, ..p },
        PrefChange::HideQuotePosts => UserFeedPreference { show_quote_posts: false, ..p },
        PrefChange::HideSeenPosts => UserFeedPreference { hide_seen_posts: true, ..p },
        PrefChange::HideNoAltText => UserFeedPreference { hide_no_alt_text: true, ..p },
        PrefChange::Reset => p,
        PrefChange::ReplyThreshold(n) => UserFeedPreference { reply_filter_likes: n, ..p },
    }
}

pub open spec fn without_pref(ps: Seq<UserFeedPreference>, did: Seq<char>) -> Seq<UserFeedPreference>
    decreases ps.len(),
{
    if ps.len() == 0 {
        ps
    } else if ps.last().did@ == did {
        without_pref(ps.drop_last(), did)
    } else {
        without_pref(ps.drop_last(), did).push(ps.last())
    }
}

/// The preference table after `c` for `did`: a reset removes its row; any other change
/// first gives it a row of defaults where it has none, then changes that row.
pub open spec fn change_prefs(ps: Seq<UserFeedPreference>, did: String, c: PrefChange) -> Seq<
    UserFeedPreference,
> {
    match c {
        PrefChange::Reset => without_pref(ps, did@),
        _ => {
            let ps2 = if has_pref(ps, did@) {
                ps
            } else {
                ps.push(UserFeedPreference::with_defaults_spec(did))
            };
            ps2.map_values(
                |p: UserFeedPreference|
                    if p.did@ == did@ {
                        changed_row(p, c)
                    } else {
                        p
                    },
            )
        },
    }
}

pub open spec fn change_ok(c: PrefChange) -> bool {
    match c {
        PrefChange::ReplyThreshold(n) => n >= 0,
        _ => true,
    }
}

/// A preference row copied field by field.
pub fn copy_pref(p: &UserFeedPreference) -> (r: UserFeedPreference)
    ensures
        r == *p,
{
    UserFeedPreference {
        did: p.did.clone(),
        show_replies: p.show_replies,
        reply_filter_likes: p.reply_filter_likes,
        reply_filter_followed_only: p.reply_filter_followed_only,
        show_reposts: p.show_reposts,
        show_quote_posts: p.show_quote_posts,
        hide_seen_posts: p.hide_seen_posts,
        hide_no_alt_text: p.hide_no_alt_text,
    }
}

fn change_row(p: &UserFeedPreference, c: PrefChange) -> (r: UserFeedPreference)
    ensures
        r == changed_row(*p, c),
{
    let mut r = copy_pref(p);
    match c {
        PrefChange::FollowedRepliesOnly => r.reply_filter_followed_only = true,
        PrefChange::HideReposts => r.show_reposts = false,
        PrefChange::HideQuotePosts => r.show_quote_posts = false,
        PrefChange::HideSeenPosts => r.hide_seen_posts = true,
        PrefChange::HideNoAltText => r.hide_no_alt_text = true,
        PrefChange::Reset => {},
        PrefChange::ReplyThreshold(n) => r.reply_filter_likes = n,
    }
    r
}

/// The index of `did`'s row, if it has one.
pub fn find_pref(ps: &Vec<UserFeedPreference>, did: &String) -> (r: Option<usize>)
    ensures
        r.is_none() == !has_pref(ps@, did@),
        r.is_some() ==> r.unwrap() < ps@.len() && ps@[r.unwrap() as int].did@ == did@,
{
    let mut i: usize = 0;
    while i < ps.len()
        invariant
            i <= ps.len(),
            forall|j: int| 0 <= j < i ==> (#[trigger] ps@[j]).did@ != did@,
        decreases ps.len() - i,
    {
        if ps[i].did == *did {
            return Some(i);
        }
        i += 1;
    }
    None
}

proof fn lemma_settings_for_at(ps: Seq<UserFeedPreference>, did: Seq<char>, i: int)
    requires
        prefs_wf(ps),
        0 <= i < ps.len(),
        ps[i].did@ == did,
    ensures
        settings_for(ps, did) == ps[i].settings_spec(),
{
}

/// The preferences in force for `did`.
pub fn settings_of(ps: &Vec<UserFeedPreference>, did: &String) -> (r: FeedSettings)
    requires
        prefs_wf(ps@),
    ensures
        r == settings_for(ps@, did@),
{
    match find_pref(ps, did) {
        Some(i) => {
            proof {
                lemma_settings_for_at(ps@, did@, i as int);
            }
            ps[i].settings()
        },
        None => FeedSettings::defaults(),
    }
}

proof fn lemma_without_pref(ps: Seq<UserFeedPreference>, did: Seq<char>)
    ensures
        forall|x: UserFeedPreference| #[trigger]
            without_pref(ps, did).contains(x) <==> (ps.contains(x) && x.did@ != did),
        without_pref(ps, did).len() <= ps.len(),
    decreases ps.len(),
{
    if ps.len() > 0 {
        lemma_without_pref(ps.drop_last(), did);
        let w = without_pref(ps.drop_last(), did);
        assert forall|x: UserFeedPreference| #[trigger]
            without_pref(ps, did).contains(x) <==> (ps.contains(x) && x.did@ != did) by {
            if ps.contains(x) && x.did@ != did {
                let j = choose|j: int| 0 <= j < ps.len() && ps[j] == x;
                if j < ps.len() - 1 {
                    assert(ps.drop_last()[j] == x);
                    assert(ps.drop_last().contains(x));
                }
            }
            if without_pref(ps, did).contains(x) {
                if ps.last().did@ != did && x == ps.last() {
                } else {
                    assert(w.contains(x)) by {
                        if ps.last().did@ != did {
                            let j = choose|j: int|
                                0 <= j < w.push(ps.last()).len() && w.push(ps.last())[j] == x;
                            assert(w[j] == x);
                        }
                    }
                    let j = choose|j: int|
                        0 <= j < ps.drop_last().len() && ps.drop_last()[j] == x;
                    assert(ps[j] == x);
                }
            }
            if ps.last().did@ != did {
                assert(w.push(ps.last())[w.len() as int] == ps.last());
                if w.contains(x) {
                    let j = choose|j: int| 0 <= j < w.len() && w[j] == x;
                    assert(w.push(ps.last())[j] == x);
                }
            }
        }
    }
}

/// Applies `c` to `did`'s preferences.
pub fn change_prefs_exec(ps: &mut Vec<UserFeedPreference>, did: &String, c: PrefChange)
    requires
        change_ok(c),
    ensures
        final(ps)@ == change_prefs(old(ps)@, *did, c),
{
    match c {
        PrefChange::Reset => {
            let ghost orig = ps@;
            let mut kept: Vec<UserFeedPreference> = Vec::new();
            let mut i: usize = 0;
            while i < ps.len()
                invariant
                    i <= ps.len(),
                    ps@ == orig,
                    kept@ == without_pref(orig.subrange(0, i as int), did@),
                decreases ps.len() - i,
            {
                assert(orig.subrange(0, i + 1).drop_last() =~= orig.subrange(0, i as int));
                if ps[i].did != *did {
                    kept.push(copy_pref(&ps[i]));
                }
                i += 1;
            }
            assert(orig.subrange(0, ps.len() as int) =~= orig);
            *ps = kept;
        },
        _ => {
            if find_pref(ps, did).is_none() {
                ps.push(UserFeedPreference::with_defaults(did.clone()));
            }
            let ghost base = ps@;
            let mut i: usize = 0;
            while i < ps.len()
                invariant
                    i <= ps.len(),
                    ps@.len() == base.len(),
                    forall|j: int|
                        0 <= j < i ==> #[trigger] ps@[j] == (if base[j].did@ == did@ {
                            changed_row(base[j], c)
                        } else {
                            base[j]
                        }),
                    forall|j: int| i <= j < ps@.len() ==> #[trigger] ps@[j] == base[j],
                decreases ps.len() - i,
            {
                if ps[i].did == *did {
                    let r = change_row(&ps[i], c);
                    ps.set(i, r);
                }
                i += 1;
            }
            assert(ps@ =~= base.map_values(
                |p: UserFeedPreference|
                    if p.did@ == did@ {
                        changed_row(p, c)
                    } else {
                        p
                    },
            ));
        },
    }
}

/// A change keeps the table well formed.
pub proof fn lemma_change_prefs_wf(ps: Seq<UserFeedPreference>, did: String, c: PrefChange)
    requires
        prefs_wf(ps),
        change_ok(c),
    ensures
        prefs_wf(change_prefs(ps, did, c)),
{
    match c {
        PrefChange::Reset => {
            lemma_without_pref_wf(ps, did@);
        },
        _ => {
            let ps2 = if has_pref(ps, did@) {
                ps
            } else {
                ps.push(UserFeedPreference::with_defaults_spec(did))
            };
            assert(prefs_wf(ps2)) by {
                if !has_pref(ps, did@) {
                    assert forall|i: int, j: int|
                        0 <= i < ps2.len() && 0 <= j < ps2.len() && i != j implies (
                        #[trigger] ps2[i]).did@ != (#[trigger] ps2[j]).did@ by {
                        if i < ps.len() && j < ps.len() {
                            assert(ps[i] == ps2[i] && ps[j] == ps2[j]);
                        } else if i < ps.len() {
                            assert(ps[i] == ps2[i]);
                        } else if j < ps.len() {
                            assert(ps[j] == ps2[j]);
                        }
                    }
                    assert forall|i: int| 0 <= i < ps2.len() implies (
                    #[trigger] ps2[i]).reply_filter_likes >= 0 by {
                        if i < ps.len() {
                            assert(ps[i] == ps2[i]);
                        }
                    }
                }
            }
        },
    }
}

proof fn lemma_without_pref_wf(ps: Seq<UserFeedPreference>, did: Seq<char>)
    requires
        prefs_wf(ps),
    ensures
        prefs_wf(without_pref(ps, did)),
    decreases ps.len(),
{
    if ps.len() > 0 {
        let d = ps.drop_last();
        assert(prefs_wf(d)) by {
            assert forall|i: int, j: int|
                0 <= i < d.len() && 0 <= j < d.len() && i != j implies (#[trigger] d[i]).did@ != (
                #[trigger] d[j]).did@ by {
                assert(d[i] == ps[i] && d[j] == ps[j]);
            }
            assert forall|i: int| 0 <= i < d.len() implies (#[trigger] d[i]).reply_filter_likes
                >= 0 by {
                assert(d[i] == ps[i]);
            }
        }
        lemma_without_pref_wf(d, did);
        lemma_without_pref(d, did);
        let w = without_pref(d, did);
        if ps.last().did@ != did {
            let w2 = w.push(ps.last());
            assert forall|i: int, j: int|
                0 <= i < w2.len() && 0 <= j < w2.len() && i != j implies (#[trigger] w2[i]).did@
                != (#[trigger] w2[j]).did@ by {
                if i == w.len() && j < w.len() {
                    assert(w.contains(w[j]));
                    let k = choose|k: int| 0 <= k < d.len() && d[k] == w[j];
                    assert(ps[k] == w[j]);
                } else if j == w.len() && i < w.len() {
                    assert(w.contains(w[i]));
                    let k = choose|k: int| 0 <= k < d.len() && d[k] == w[i];
                    assert(ps[k] == w[i]);
                } else {
                    assert(w2[i] == w[i] && w2[j] == w[j]);
                }
            }
            assert forall|i: int| 0 <= i < w2.len() implies (#[trigger] w2[i]).reply_filter_likes
                >= 0 by {
                if i < w.len() {
                    assert(w2[i] == w[i]);
                }
            }
        }
    }
}

} // verus!

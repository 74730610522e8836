//! Reads and writes of stream cursors and of preferences.
use vstd::prelude::*;

use crate::model::{CreateUserConfigRequest, CursorUpdateState, FeedError, FollowingPreference, UserFeedPreference};
use crate::prefs::{copy_pref, find_pref, has_pref, settings_for};
use crate::store::{cursors_wf, FeedStore, StoreState};

verus! {

pub open spec fn has_cursor(cs: Seq<CursorUpdateState>, service: Seq<char>) -> bool {
    exists|i: int| 0 <= i < cs.len() && (#[trigger] cs[i]).service@ == service
}

/// The last position recorded for `service`, if any.
pub open spec fn cursor_for(cs: Seq<CursorUpdateState>, service: Seq<char>) -> Option<i64> {
    if has_cursor(cs, service) {
        Some(cs[choose|i: int| 0 <= i < cs.len() && (#[trigger] cs[i]).service@ == service].cursor)
    } else {
        None
    }
}

/// The cursor table with `service` set to `sequence`.
pub open spec fn set_cursor(cs: Seq<CursorUpdateState>, service: String, sequence: i64) -> Seq<
    CursorUpdateState,
> {
    if has_cursor(cs, service@) {
        cs.map_values(
            |c: CursorUpdateState|
                if c.service@ == service@ {
                    CursorUpdateState { service: c.service, cursor: sequence }
                } else {
                    c
                },
        )
    } else {
        cs.push(CursorUpdateState { service, cursor: sequence })
    }
}

/// The preference table with `p` as the row of its account.
pub open spec fn upsert_pref(ps: Seq<UserFeedPreference>, p: UserFeedPreference) -> Seq<
    UserFeedPreference,
> {
    if has_pref(ps, p.did@) {
        ps.map_values(
            |q: UserFeedPreference|
                if q.did@ == p.did@ {
                    p
                } else {
                    q
                },
        )
    } else {
        ps.push(p)
    }
}

/// The overrides that `author` has set, in table order.
pub open spec fn overrides_of(fps: Seq<FollowingPreference>, author: Seq<char>) -> Seq<
    FollowingPreference,
>
    decreases fps.len(),
{
    if fps.len() == 0 {
        fps
    } else if fps.last().author@ == author {
        overrides_of(fps.drop_last(), author).push(fps.last())
    } else {
        overrides_of(fps.drop_last(), author)
    }
}

pub open spec fn same_pair(a: FollowingPreference, b: FollowingPreference) -> bool {
    a.author@ == b.author@ && a.did@ == b.did@
}

/// The override table with `p` as the override of its pair of accounts.
pub open spec fn upsert_override(fps: Seq<FollowingPreference>, p: FollowingPreference) -> Seq<
    FollowingPreference,
> {
    if exists|i: int| 0 <= i < fps.len() && same_pair(#[trigger] fps[i], p) {
        fps.map_values(
            |q: FollowingPreference|
                if same_pair(q, p) {
                    p
                } else {
                    q
                },
        )
    } else {
        fps.push(p)
    }
}

/// The preference row that a configuration request writes: its six fields, with seen posts
/// and posts without alt text shown.
pub open spec fn pref_of_request(req: CreateUserConfigRequest) -> UserFeedPreference {
    UserFeedPreference {
        did: req.did,
        show_replies: req.show_replies,
        reply_filter_likes: req.reply_filter_likes as i32,
        reply_filter_followed_only: req.reply_filter_followed_only,
        show_reposts: req.show_reposts,
        show_quote_posts: req.show_quote_posts,
        hide_seen_posts: false,
        hide_no_alt_text: false,
    }
}

fn copy_override(p: &FollowingPreference) -> (r: FollowingPreference)
    ensures
        r == *p,
{
    FollowingPreference {
        author: p.author.clone(),
        did: p.did.clone(),
        show_reposts: p.show_reposts,
        show_quote_posts: p.show_quote_posts,
    }
}

impl FeedStore {
    /// The last position recorded for `service`.
    pub fn get_cursor(&self, service: &String) -> (r: Result<CursorUpdateState, FeedError>)
        requires
            self.wf(),
        ensures
            match cursor_for(self@.cursors, service@) {
                None => r == Err::<CursorUpdateState, FeedError>(FeedError::NotFound),
                Some(v) => r.is_ok() && r.unwrap().service == *service && r.unwrap().cursor == v,
            },
    {
        let mut i: usize = 0;
        while i < self.cursors.len()
            invariant
                i <= self.cursors.len(),
                self.wf(),
                forall|j: int| 0 <= j < i ==> (#[trigger] self@.cursors[j]).service@ != service@,
            decreases self.cursors.len() - i,
        {
            if self.cursors[i].service == *service {
                assert(self@.cursors[i as int] == self.cursors@[i as int]);
                proof {
                    let cs = self@.cursors;
                    assert(cursors_wf(cs));
                    assert(cs[i as int].service@ == service@);
                    assert(has_cursor(cs, service@));
                    let k = choose|k: int| 0 <= k < cs.len() && (#[trigger] cs[k]).service@ == service@;
                    if k != i {
                        assert(cs[k].service@ != cs[i as int].service@);
                    }
                }
                return Ok(CursorUpdateState { service: service.clone(), cursor: self.cursors[i].cursor });
            }
            i += 1;
        }
        Err(FeedError::NotFound)
    }

    /// Records `sequence` as the last position processed for `service`.
    pub fn update_cursor(&mut self, service: String, sequence: i64)
        requires
            old(self).wf(),
        ensures
            final(self).wf(),
            final(self)@ == (StoreState {
                cursors: set_cursor(old(self)@.cursors, service, sequence),
                ..old(self)@
            }),
            cursor_for(final(self)@.cursors, service@) == Some(sequence),
    {
        let ghost base = self@.cursors;
        let mut found = false;
        let mut i: usize = 0;
        while i < self.cursors.len()
            invariant
                i <= self.cursors.len(),
                self.cursors@.len() == base.len(),
                self@ == (StoreState { cursors: self.cursors@, ..old(self)@ }),
                found == exists|j: int| 0 <= j < i && (#[trigger] base[j]).service@ == service@,
                forall|j: int|
                    0 <= j < i ==> #[trigger] self.cursors@[j] == (if base[j].service@ == service@ {
                        CursorUpdateState { service: base[j].service, cursor: sequence }
                    } else {
                        base[j]
                    }),
                forall|j: int| i <= j < base.len() ==> #[trigger] self.cursors@[j] == base[j],
            decreases self.cursors.len() - i,
        {
            if self.cursors[i].service == service {
                let c = CursorUpdateState { service: self.cursors[i].service.clone(), cursor: sequence };
                self.cursors.set(i, c);
                found = true;
            }
            i += 1;
        }
        if !found {
            self.cursors.push(CursorUpdateState { service, cursor: sequence });
        }
        proof {
            let cs = self@.cursors;
            if found {
                assert(cs =~= set_cursor(base, service, sequence));
            } else {
                assert(cs =~= set_cursor(base, service, sequence));
            }
            assert forall|i: int, j: int|
                0 <= i < cs.len() && 0 <= j < cs.len() && i != j implies (#[trigger] cs[i]).service@
                != (#[trigger] cs[j]).service@ by {
                if i < base.len() && j < base.len() {
                    assert(base[i].service@ != base[j].service@);
                }
            }
            assert(has_cursor(cs, service@)) by {
                if found {
                    let j = choose|j: int| 0 <= j < base.len() && (#[trigger] base[j]).service@ == service@;
                    assert(cs[j].service@ == service@);
                } else {
                    assert(cs[base.len() as int].service@ == service@);
                }
            }
            let k = choose|k: int| 0 <= k < cs.len() && (#[trigger] cs[k]).service@ == service@;
            assert(cs[k].cursor == sequence);
        }
    }

    /// `did`'s preference row, if it has one.
    pub fn get_user_config(&self, did: &String) -> (r: Option<UserFeedPreference>)
        requires
            self.wf(),
        ensures
            r.is_none() == !has_pref(self@.preferences, did@),
            r.is_some() ==> r.unwrap().did@ == did@ && self@.preferences.contains(r.unwrap())
                && r.unwrap().settings_spec() == settings_for(self@.preferences, did@),
    {
        match find_pref(&self.preferences, did) {
            Some(i) => {
                let p = copy_pref(&self.preferences[i]);
                assert(self@.preferences[i as int] == p);
                Some(p)
            },
            None => None,
        }
    }

    /// Writes `config` as its account's preferences. A negative like threshold is a
    /// validation error and changes nothing.
    pub fn update_user_config(&mut self, config: UserFeedPreference) -> (r: Result<(), FeedError>)
        requires
            old(self).wf(),
        ensures
            final(self).wf(),
            config.reply_filter_likes < 0 ==> r == Err::<(), FeedError>(FeedError::Validation)
                && final(self)@ == old(self)@,
            config.reply_filter_likes >= 0 ==> r.is_ok() && final(self)@ == (StoreState {
                preferences: upsert_pref(old(self)@.preferences, config),
                ..old(self)@
            }) && settings_for(final(self)@.preferences, config.did@) == config.settings_spec(),
    {
        if config.reply_filter_likes < 0 {
            return Err(FeedError::Validation);
        }
        let ghost base = self@.preferences;
        let exists_row = find_pref(&self.preferences, &config.did).is_some();
        if exists_row {
            let mut i: usize = 0;
            while i < self.preferences.len()
                invariant
                    i <= self.preferences.len(),
                    self.preferences@.len() == base.len(),
                    self@ == (StoreState { preferences: self.preferences@, ..old(self)@ }),
                    forall|j: int|
                        0 <= j < i ==> #[trigger] self.preferences@[j] == (if base[j].did@ == config.did@ {
                            config
                        } else {
                            base[j]
                        }),
                    forall|j: int| i <= j < base.len() ==> #[trigger] self.preferences@[j] == base[j],
                decreases self.preferences.len() - i,
            {
                if self.preferences[i].did == config.did {
                    let c = copy_pref(&config);
                    self.preferences.set(i, c);
                }
                i += 1;
            }
        } else {
            let c = copy_pref(&config);
            self.preferences.push(c);
        }
        proof {
            let ps = self@.preferences;
            assert(ps =~= upsert_pref(base, config));
            assert forall|i: int, j: int|
                0 <= i < ps.len() && 0 <= j < ps.len() && i != j implies (#[trigger] ps[i]).did@ != (
                #[trigger] ps[j]).did@ by {
                if i < base.len() && j < base.len() {
                    assert(base[i].did@ != base[j].did@);
                } else if i < base.len() {
                    assert(!has_pref(base, config.did@));
                    assert(base[i].did@ != config.did@);
                } else if j < base.len() {
                    assert(base[j].did@ != config.did@);
                }
            }
            assert forall|i: int| 0 <= i < ps.len() implies (#[trigger] ps[i]).reply_filter_likes >= 0 by {
                if i < base.len() {
                    assert(base[i].reply_filter_likes >= 0);
                }
            }
            assert(has_pref(ps, config.did@)) by {
                if exists_row {
                    let j = choose|j: int| 0 <= j < base.len() && (#[trigger] base[j]).did@ == config.did@;
                    assert(ps[j] == config);
                } else {
                    assert(ps[base.len() as int] == config);
                }
            }
            let k = choose|k: int| 0 <= k < ps.len() && (#[trigger] ps[k]).did@ == config.did@;
            assert(ps[k] == config);
        }
        Ok(())
    }

    /// Writes the preferences of a configuration request (see `pref_of_request`). A like
    /// threshold outside `0..=i32::MAX` is a validation error and changes nothing.
    pub fn user_config_creation(&mut self, req: &CreateUserConfigRequest) -> (r: Result<(), FeedError>)
        requires
            old(self).wf(),
        ensures
            final(self).wf(),
            !(0 <= req.reply_filter_likes <= i32::MAX) ==> r == Err::<(), FeedError>(
                FeedError::Validation,
            ) && final(self)@ == old(self)@,
            0 <= req.reply_filter_likes <= i32::MAX ==> r.is_ok() && final(self)@ == (StoreState {
                preferences: upsert_pref(old(self)@.preferences, pref_of_request(*req)),
                ..old(self)@
            }),
    {
        if req.reply_filter_likes < 0 || req.reply_filter_likes > i32::MAX as i64 {
            return Err(FeedError::Validation);
        }
        let p = UserFeedPreference {
            did: req.did.clone(),
            show_replies: req.show_replies,
            reply_filter_likes: req.reply_filter_likes as i32,
            reply_filter_followed_only: req.reply_filter_followed_only,
            show_reposts: req.show_reposts,
            show_quote_posts: req.show_quote_posts,
            hide_seen_posts: false,
            hide_no_alt_text: false,
        };
        self.update_user_config(p)
    }

    /// The overrides that `author` has set.
    pub fn following_pref_fetch(&self, author: &String) -> (r: Vec<FollowingPreference>)
        ensures
            r@ == overrides_of(self@.following_preferences, author@),
    {
        let ghost fps = self@.following_preferences;
        let mut r: Vec<FollowingPreference> = Vec::new();
        let mut i: usize = 0;
        while i < self.following_preferences.len()
            invariant
                i <= self.following_preferences.len(),
                fps == self@.following_preferences,
                r@ == overrides_of(fps.subrange(0, i as int), author@),
            decreases self.following_preferences.len() - i,
        {
            assert(fps.subrange(0, i + 1).drop_last() =~= fps.subrange(0, i as int));
            if self.following_preferences[i].author == *author {
                r.push(copy_override(&self.following_preferences[i]));
            }
            i += 1;
        }
        assert(fps.subrange(0, i as int) =~= fps);
        r
    }

    /// Sets the override of `pref`'s pair of accounts.
    pub fn following_pref_update(&mut self, pref: FollowingPreference)
        requires
            old(self).wf(),
        ensures
            final(self).wf(),
            final(self)@ == (StoreState {
                following_preferences: upsert_override(old(self)@.following_preferences, pref),
                ..old(self)@
            }),
    {
        let ghost base = self@.following_preferences;
        let mut found = false;
        let mut i: usize = 0;
        while i < self.following_preferences.len()
            invariant
                i <= self.following_preferences.len(),
                self.following_preferences@.len() == base.len(),
                self@ == (StoreState { following_preferences: self.following_preferences@, ..old(self)@ }),
                found == exists|j: int| 0 <= j < i && same_pair(#[trigger] base[j], pref),
                forall|j: int|
                    0 <= j < i ==> #[trigger] self.following_preferences@[j] == (if same_pair(base[j], pref) {
                        pref
                    } else {
                        base[j]
                    }),
                forall|j: int| i <= j < base.len() ==> #[trigger] self.following_preferences@[j] == base[j],
            decreases self.following_preferences.len() - i,
        {
            let q = &self.following_preferences[i];
            if q.author == pref.author && q.did == pref.did {
                let c = copy_override(&pref);
                self.following_preferences.set(i, c);
                found = true;
            }
            i += 1;
        }
        if !found {
            self.following_preferences.push(pref);
        }
        assert(self@.following_preferences =~= upsert_override(base, pref));
    }
}

} // verus!

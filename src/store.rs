//! The stores that ingestion writes and feed requests read.
use vstd::prelude::*;

use crate::model::{
    CursorUpdateState, FetchedPost, Follow, FollowingPreference, Like, Post, Repost, SeenPost,
    UserFeedPreference,
};
use crate::prefs::prefs_wf;
use crate::table::keys_unique;

verus! {

/// Every table of the feed generator.
pub struct FeedStore {
    pub follows: Vec<Follow>,
    pub posts: Vec<Post>,
    pub reposts: Vec<Repost>,
    pub likes: Vec<Like>,
    pub preferences: Vec<UserFeedPreference>,
    pub following_preferences: Vec<FollowingPreference>,
    pub fetched: Vec<FetchedPost>,
    pub seen: Vec<SeenPost>,
    pub cursors: Vec<CursorUpdateState>,
}

/// The contents of a `FeedStore`.
pub struct StoreState {
    pub follows: Seq<Follow>,
    pub posts: Seq<Post>,
    pub reposts: Seq<Repost>,
    pub likes: Seq<Like>,
    pub preferences: Seq<UserFeedPreference>,
    pub following_preferences: Seq<FollowingPreference>,
    pub fetched: Seq<FetchedPost>,
    pub seen: Seq<SeenPost>,
    pub cursors: Seq<CursorUpdateState>,
}

impl View for FeedStore {
    type V = StoreState;

    open spec fn view(&self) -> StoreState {
        StoreState {
            follows: self.follows@,
            posts: self.posts@,
            reposts: self.reposts@,
            likes: self.likes@,
            preferences: self.preferences@,
            following_preferences: self.following_preferences@,
            fetched: self.fetched@,
            seen: self.seen@,
            cursors: self.cursors@,
        }
    }
}

/// At most one cursor per service.
pub open spec fn cursors_wf(cs: Seq<CursorUpdateState>) -> bool {
    forall|i: int, j: int|
        0 <= i < cs.len() && 0 <= j < cs.len() && i != j ==> (#[trigger] cs[i]).service@ != (
        #[trigger] cs[j]).service@
}

/// The store's invariants: uris are unique in each content table, one preference row per
/// account with a non-negative like threshold, one cursor per service.
pub open spec fn store_wf(s: StoreState) -> bool {
    &&& keys_unique(s.follows)
    &&& keys_unique(s.posts)
    &&& keys_unique(s.reposts)
    &&& keys_unique(s.likes)
    &&& prefs_wf(s.preferences)
    &&& cursors_wf(s.cursors)
}

impl FeedStore {
    pub open spec fn wf(&self) -> bool {
        store_wf(self@)
    }

    /// An empty store.
    pub fn new() -> (r: FeedStore)
        ensures
            r.wf(),
            r@.follows.len() == 0,
            r@.posts.len() == 0,
            r@.reposts.len() == 0,
            r@.likes.len() == 0,
            r@.preferences.len() == 0,
            r@.following_preferences.len() == 0,
            r@.fetched.len() == 0,
            r@.seen.len() == 0,
            r@.cursors.len() == 0,
    {
        FeedStore {
            follows: Vec::new(),
            posts: Vec::new(),
            reposts: Vec::new(),
            likes: Vec::new(),
            preferences: Vec::new(),
            following_preferences: Vec::new(),
            fetched: Vec::new(),
            seen: Vec::new(),
            cursors: Vec::new(),
        }
    }
}

} // verus!

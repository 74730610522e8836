//! The two-tier record of what an account has been shown: a rolling window of fetched
//! uris, and the durable set of seen uris that the oldest of them graduate into.
use vstd::prelude::*;

use crate::model::{FetchedPost, FeedSettings, SeenPost};
use crate::order::FeedRow;
use crate::store::{FeedStore, StoreState};

verus! {

/// How many fetched rows graduate at once.
pub const FETCH_WINDOW: usize = 30;

/// Graduation waits until an account has this many fetched rows.
pub const GRADUATION_THRESHOLD: usize = 60;

/// The fetched rows of `did`, oldest first.
pub open spec fn fetched_of(fs: Seq<FetchedPost>, did: Seq<char>) -> Seq<FetchedPost>
    decreases fs.len(),
{
    if fs.len() == 0 {
        fs
    } else if fs.last().did@ == did {
        fetched_of(fs.drop_last(), did).push(fs.last())
    } else {
        fetched_of(fs.drop_last(), did)
    }
}

/// The fetched rows that are not `did`'s.
pub open spec fn fetched_without(fs: Seq<FetchedPost>, did: Seq<char>) -> Seq<FetchedPost>
    decreases fs.len(),
{
    if fs.len() == 0 {
        fs
    } else if fs.last().did@ == did {
        fetched_without(fs.drop_last(), did)
    } else {
        fetched_without(fs.drop_last(), did).push(fs.last())
    }
}

/// The fetched rows without those of `did` whose uri is among `uris`.
pub open spec fn fetched_without_uris(
    fs: Seq<FetchedPost>,
    did: Seq<char>,
    uris: Seq<Seq<char>>,
) -> Seq<FetchedPost>
    decreases fs.len(),
{
    if fs.len() == 0 {
        fs
    } else if fs.last().did@ == did && uris.contains(fs.last().uri@) {
        fetched_without_uris(fs.drop_last(), did, uris)
    } else {
        fetched_without_uris(fs.drop_last(), did, uris).push(fs.last())
    }
}

/// The oldest fetched rows of `did`: those that graduate.
pub open spec fn graduates(fs: Seq<FetchedPost>, did: Seq<char>) -> Seq<FetchedPost> {
    let f = fetched_of(fs, did);
    if f.len() <= 30 {
        f
    } else {
        f.subrange(0, 30)
    }
}

pub open spec fn as_seen(fs: Seq<FetchedPost>) -> Seq<SeenPost> {
    fs.map_values(|f: FetchedPost| SeenPost { did: f.did, uri: f.uri })
}

pub open spec fn fetched_uris(fs: Seq<FetchedPost>) -> Seq<Seq<char>> {
    fs.map_values(|f: FetchedPost| f.uri@)
}

/// What a feed request does to the two tiers before it reads: with seen posts hidden and a
/// limit other than 1, a request without a cursor clears the window, and one with a cursor
/// graduates the oldest of a window that has reached the threshold.
pub open spec fn seen_step(
    s: StoreState,
    did: Seq<char>,
    st: FeedSettings,
    limit: int,
    has_cursor: bool,
) -> StoreState {
    if st.hide_seen_posts && limit != 1 {
        if !has_cursor {
            StoreState { fetched: fetched_without(s.fetched, did), ..s }
        } else if fetched_of(s.fetched, did).len() >= 60 {
            let g = graduates(s.fetched, did);
            StoreState {
                seen: s.seen + as_seen(g),
                fetched: fetched_without_uris(s.fetched, did, fetched_uris(g)),
                ..s
            }
        } else {
            s
        }
    } else {
        s
    }
}

/// The window rows that a delivered page adds.
pub open spec fn fetched_rows(did: String, rows: Seq<FeedRow>) -> Seq<FetchedPost> {
    rows.map_values(|r: FeedRow| FetchedPost { did, uri: r.uri })
}

impl FeedStore {
    /// The oldest fetched rows of `did`, at most a window of them.
    pub fn get_fetched_posts(&self, did: &String) -> (r: Vec<FetchedPost>)
        ensures
            r@ == graduates(self@.fetched, did@),
    {
        let ghost fs = self@.fetched;
        let mut r: Vec<FetchedPost> = Vec::new();
        let mut i: usize = 0;
        while i < self.fetched.len() && r.len() < FETCH_WINDOW
            invariant
                i <= self.fetched.len(),
                fs == self@.fetched,
                r.len() <= 30,
                r@ == (if fetched_of(fs.subrange(0, i as int), did@).len() <= 30 {
                    fetched_of(fs.subrange(0, i as int), did@)
                } else {
                    fetched_of(fs.subrange(0, i as int), did@).subrange(0, 30)
                }),
                r.len() < 30 ==> r@ == fetched_of(fs.subrange(0, i as int), did@),
            decreases self.fetched.len() - i,
        {
            assert(fs.subrange(0, i + 1).drop_last() =~= fs.subrange(0, i as int));
            if self.fetched[i].did == *did {
                r.push(FetchedPost { did: self.fetched[i].did.clone(), uri: self.fetched[i].uri.clone() });
            }
            i += 1;
        }
        proof {
            if i < self.fetched.len() {
                let a = fetched_of(fs.subrange(0, i as int), did@);
                assert(a.len() >= 30);
                assert(r@ =~= a.subrange(0, 30));
                lemma_fetched_of_prefix(fs, did@, i as int);
                let f = fetched_of(fs, did@);
                if f.len() <= 30 {
                    assert(f =~= f.subrange(0, 30));
                }
            } else {
                assert(fs.subrange(0, i as int) =~= fs);
            }
        }
        r
    }

    /// How many fetched rows `did` has.
    pub fn get_total_fetches(&self, did: &String) -> (r: usize)
        ensures
            r == fetched_of(self@.fetched, did@).len(),
    {
        let ghost fs = self@.fetched;
        let mut n: usize = 0;
        let mut i: usize = 0;
        while i < self.fetched.len()
            invariant
                i <= self.fetched.len(),
                fs == self@.fetched,
                n <= i,
                n == fetched_of(fs.subrange(0, i as int), did@).len(),
            decreases self.fetched.len() - i,
        {
            assert(fs.subrange(0, i + 1).drop_last() =~= fs.subrange(0, i as int));
            if self.fetched[i].did == *did {
                n += 1;
            }
            i += 1;
        }
        assert(fs.subrange(0, i as int) =~= fs);
        n
    }

    /// Clears `did`'s window.
    pub fn invalidate_all_fetched_posts(&mut self, did: &String)
        ensures
            final(self)@ == (StoreState {
                fetched: fetched_without(old(self)@.fetched, did@),
                ..old(self)@
            }),
    {
        let ghost fs = self@.fetched;
        let mut kept: Vec<FetchedPost> = Vec::new();
        let mut i: usize = 0;
        while i < self.fetched.len()
            invariant
                i <= self.fetched.len(),
                fs == self@.fetched,
                kept@ == fetched_without(fs.subrange(0, i as int), did@),
            decreases self.fetched.len() - i,
        {
            assert(fs.subrange(0, i + 1).drop_last() =~= fs.subrange(0, i as int));
            if self.fetched[i].did != *did {
                kept.push(FetchedPost { did: self.fetched[i].did.clone(), uri: self.fetched[i].uri.clone() });
            }
            i += 1;
        }
        assert(fs.subrange(0, i as int) =~= fs);
        self.fetched = kept;
    }

    /// Removes the rows of `did`'s window whose uri is in `uris`.
    pub fn invalidate_fetched_posts(&mut self, did: &String, uris: &Vec<String>)
        ensures
            final(self)@ == (StoreState {
                fetched: fetched_without_uris(
                    old(self)@.fetched,
                    did@,
                    crate::table::strings_view(uris@),
                ),
                ..old(self)@
            }),
    {
        let ghost fs = self@.fetched;
        let ghost u = crate::table::strings_view(uris@);
        let mut kept: Vec<FetchedPost> = Vec::new();
        let mut i: usize = 0;
        while i < self.fetched.len()
            invariant
                i <= self.fetched.len(),
                fs == self@.fetched,
                u == crate::table::strings_view(uris@),
                kept@ == fetched_without_uris(fs.subrange(0, i as int), did@, u),
            decreases self.fetched.len() - i,
        {
            assert(fs.subrange(0, i + 1).drop_last() =~= fs.subrange(0, i as int));
            let f = &self.fetched[i];
            if !(f.did == *did && crate::table::contains_string(uris, &f.uri)) {
                kept.push(FetchedPost { did: f.did.clone(), uri: f.uri.clone() });
            }
            i += 1;
        }
        assert(fs.subrange(0, i as int) =~= fs);
        self.fetched = kept;
    }

    /// Records `posts` as seen.
    pub fn insert_seen_posts(&mut self, posts: &Vec<FetchedPost>)
        ensures
            final(self)@ == (StoreState { seen: old(self)@.seen + as_seen(posts@), ..old(self)@ }),
    {
        let ghost start = self@.seen;
        let mut i: usize = 0;
        while i < posts.len()
            invariant
                i <= posts.len(),
                self@ == (StoreState { seen: start + as_seen(posts@.subrange(0, i as int)), ..old(self)@ }),
            decreases posts.len() - i,
        {
            self.seen.push(SeenPost { did: posts[i].did.clone(), uri: posts[i].uri.clone() });
            assert(start + as_seen(posts@.subrange(0, i + 1)) =~= (start + as_seen(posts@.subrange(0, i as int))).push(
                SeenPost { did: posts@[i as int].did, uri: posts@[i as int].uri },
            ));
            i += 1;
        }
        assert(posts@.subrange(0, i as int) =~= posts@);
    }

    /// Adds the delivered rows of a page to `did`'s window.
    pub fn insert_fetched_posts(&mut self, did: &String, rows: &Vec<FeedRow>)
        ensures
            final(self)@ == (StoreState {
                fetched: old(self)@.fetched + fetched_rows(*did, rows@),
                ..old(self)@
            }),
    {
        let ghost start = self@.fetched;
        let mut i: usize = 0;
        while i < rows.len()
            invariant
                i <= rows.len(),
                self@ == (StoreState {
                    fetched: start + fetched_rows(*did, rows@.subrange(0, i as int)),
                    ..old(self)@
                }),
            decreases rows.len() - i,
        {
            self.fetched.push(FetchedPost { did: did.clone(), uri: rows[i].uri.clone() });
            assert(start + fetched_rows(*did, rows@.subrange(0, i + 1)) =~= (start + fetched_rows(
                *did,
                rows@.subrange(0, i as int),
            )).push(FetchedPost { did: *did, uri: rows@[i as int].uri }));
            i += 1;
        }
        assert(rows@.subrange(0, i as int) =~= rows@);
    }

    /// Graduates the oldest rows of `did`'s window into its seen posts.
    pub fn update_seen_posts(&mut self, did: &String)
        ensures
            ({
                let g = graduates(old(self)@.fetched, did@);
                final(self)@ == (StoreState {
                    seen: old(self)@.seen + as_seen(g),
                    fetched: fetched_without_uris(old(self)@.fetched, did@, fetched_uris(g)),
                    ..old(self)@
                })
            }),
    {
        let fetched_posts = self.get_fetched_posts(did);
        self.insert_seen_posts(&fetched_posts);
        let mut uri_list: Vec<String> = Vec::new();
        let mut i: usize = 0;
        while i < fetched_posts.len()
            invariant
                i <= fetched_posts.len(),
                crate::table::strings_view(uri_list@) == fetched_uris(fetched_posts@.subrange(0, i as int)),
            decreases fetched_posts.len() - i,
        {
            let ghost before = crate::table::strings_view(uri_list@);
            uri_list.push(fetched_posts[i].uri.clone());
            assert(crate::table::strings_view(uri_list@) =~= before.push(fetched_posts@[i as int].uri@));
            assert(fetched_uris(fetched_posts@.subrange(0, i + 1)) =~= fetched_uris(fetched_posts@.subrange(0, i as int)).push(fetched_posts@[i as int].uri@));
            i += 1;
        }
        assert(fetched_posts@.subrange(0, i as int) =~= fetched_posts@);
        self.invalidate_fetched_posts(did, &uri_list);
    }
}

proof fn lemma_fetched_of_prefix(fs: Seq<FetchedPost>, did: Seq<char>, i: int)
    requires
        0 <= i <= fs.len(),
        fetched_of(fs.subrange(0, i), did).len() >= 30,
    ensures
        fetched_of(fs, did).subrange(0, 30) == fetched_of(fs.subrange(0, i), did).subrange(0, 30),
        fetched_of(fs, did).len() >= 30,
    decreases fs.len() - i,
{
    if i < fs.len() {
        assert(fs.subrange(0, i + 1).drop_last() =~= fs.subrange(0, i));
        let a = fetched_of(fs.subrange(0, i), did);
        let b = fetched_of(fs.subrange(0, i + 1), did);
        assert(b.len() >= a.len());
        assert(b.subrange(0, 30) =~= a.subrange(0, 30));
        lemma_fetched_of_prefix(fs, did, i + 1);
    } else {
        assert(fs.subrange(0, i) =~= fs);
    }
}

} // verus!

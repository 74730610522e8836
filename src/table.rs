//! Tables of rows that are identified by their uri.
use vstd::prelude::*;

use crate::model::{Follow, Like, Post, Repost};
use crate::order::copy_opt_string;

verus! {

/// A row identified by its uri.
pub trait Keyed: Sized {
    spec fn key(&self) -> Seq<char>;

    fn key_ref(&self) -> (r: &String)
        ensures
            r@ == self.key(),
    ;

    fn copy_row(&self) -> (r: Self)
        ensures
            r == *self,
    ;
}

pub open spec fn keys_of<T: Keyed>(s: Seq<T>) -> Seq<Seq<char>> {
    s.map_values(|x: T| x.key())
}

/// Whether some row of `s` has uri `u`.
pub open spec fn has_key<T: Keyed>(s: Seq<T>, u: Seq<char>) -> bool {
    exists|i: int| 0 <= i < s.len() && (#[trigger] s[i]).key() == u
}

/// No two rows share a uri.
pub open spec fn keys_unique<T: Keyed>(s: Seq<T>) -> bool {
    forall|i: int, j: int|
        0 <= i < s.len() && 0 <= j < s.len() && i != j ==> (#[trigger] s[i]).key() != (
        #[trigger] s[j]).key()
}

/// The rows of `s` whose uri is not among `del`, in order.
pub open spec fn without_keys<T: Keyed>(s: Seq<T>, del: Seq<Seq<char>>) -> Seq<T>
    decreases s.len(),
{
    if s.len() == 0 {
        s
    } else if del.contains(s.last().key()) {
        without_keys(s.drop_last(), del)
    } else {
        without_keys(s.drop_last(), del).push(s.last())
    }
}

pub fn find_key<T: Keyed>(v: &Vec<T>, u: &String) -> (r: bool)
    ensures
        r == has_key(v@, u@),
{
    let mut i: usize = 0;
    while i < v.len()
        invariant
            i <= v.len(),
            forall|j: int| 0 <= j < i ==> (#[trigger] v@[j]).key() != u@,
        decreases v.len() - i,
    {
        if *v[i].key_ref() == *u {
            return true;
        }
        i += 1;
    }
    false
}

/// The characters of each string.
pub open spec fn strings_view(v: Seq<String>) -> Seq<Seq<char>> {
    v.map_values(|x: String| x@)
}

pub fn contains_string(v: &Vec<String>, u: &String) -> (r: bool)
    ensures
        r == strings_view(v@).contains(u@),
{
    let ghost w = strings_view(v@);
    let mut i: usize = 0;
    while i < v.len()
        invariant
            i <= v.len(),
            w == strings_view(v@),
            forall|j: int| 0 <= j < i ==> w[j] != u@,
        decreases v.len() - i,
    {
        if v[i] == *u {
            assert(w[i as int] == u@);
            return true;
        }
        i += 1;
    }
    false
}

/// Removes every row whose uri is in `del`.
pub fn remove_keys<T: Keyed>(v: &mut Vec<T>, del: &Vec<String>)
    ensures
        final(v)@ == without_keys(old(v)@, strings_view(del@)),
{
    let ghost orig = v@;
    let ghost d = strings_view(del@);
    let mut kept: Vec<T> = Vec::new();
    let mut i: usize = 0;
    while i < v.len()
        invariant
            i <= v.len(),
            v@ == orig,
            d == strings_view(del@),
            kept@ == without_keys(orig.subrange(0, i as int), d),
        decreases v.len() - i,
    {
        assert(orig.subrange(0, i + 1).drop_last() =~= orig.subrange(0, i as int));
        if !contains_string(del, v[i].key_ref()) {
            kept.push(v[i].copy_row());
        }
        i += 1;
    }
    assert(orig.subrange(0, v.len() as int) =~= orig);
    *v = kept;
}

/// Pushing a row with a new uri keeps the uris unique.
pub proof fn lemma_push_unique<T: Keyed>(s: Seq<T>, x: T)
    requires
        keys_unique(s),
        !has_key(s, x.key()),
    ensures
        keys_unique(s.push(x)),
{
    let t = s.push(x);
    assert forall|i: int, j: int|
        0 <= i < t.len() && 0 <= j < t.len() && i != j implies (#[trigger] t[i]).key() != (
        #[trigger] t[j]).key() by {
        if i < s.len() && j < s.len() {
            assert(t[i] == s[i] && t[j] == s[j]);
        } else if i < s.len() {
            assert(t[i] == s[i]);
        } else {
            assert(t[j] == s[j]);
        }
    }
}

pub proof fn lemma_push_has_key<T: Keyed>(s: Seq<T>, x: T, u: Seq<char>)
    ensures
        has_key(s.push(x), u) == (has_key(s, u) || x.key() == u),
{
    let t = s.push(x);
    if has_key(s, u) {
        let i = choose|i: int| 0 <= i < s.len() && (#[trigger] s[i]).key() == u;
        assert(t[i] == s[i]);
    }
    if x.key() == u {
        assert(t[s.len() as int] == x);
    }
    if has_key(t, u) {
        let i = choose|i: int| 0 <= i < t.len() && (#[trigger] t[i]).key() == u;
        if i < s.len() {
            assert(t[i] == s[i]);
        }
    }
}

/// Removing rows keeps the uris unique, and keeps exactly the rows not named in `del`.
pub proof fn lemma_without_keys<T: Keyed>(s: Seq<T>, del: Seq<Seq<char>>)
    ensures
        keys_unique(s) ==> keys_unique(without_keys(s, del)),
        forall|x: T| #[trigger]
            without_keys(s, del).contains(x) <==> (s.contains(x) && !del.contains(x.key())),
    decreases s.len(),
{
    if s.len() > 0 {
        let d = s.drop_last();
        lemma_without_keys(d, del);
        let w = without_keys(d, del);
        let l = s.last();
        assert forall|x: T| #[trigger] s.contains(x) <==> (d.contains(x) || x == l) by {
            if s.contains(x) {
                let j = choose|j: int| 0 <= j < s.len() && s[j] == x;
                if j < d.len() {
                    assert(d[j] == x);
                }
            }
            if d.contains(x) {
                let j = choose|j: int| 0 <= j < d.len() && d[j] == x;
                assert(s[j] == x);
            }
            assert(s[s.len() - 1] == l);
        }
        if !del.contains(l.key()) {
            assert forall|x: T| #[trigger] w.push(l).contains(x) <==> (w.contains(x) || x == l) by {
                if w.push(l).contains(x) {
                    let j = choose|j: int| 0 <= j < w.push(l).len() && w.push(l)[j] == x;
                    if j < w.len() {
                        assert(w[j] == x);
                    }
                }
                if w.contains(x) {
                    let j = choose|j: int| 0 <= j < w.len() && w[j] == x;
                    assert(w.push(l)[j] == x);
                }
                assert(w.push(l)[w.len() as int] == l);
            }
        }
        if keys_unique(s) {
            assert(keys_unique(d)) by {
                assert forall|i: int, j: int|
                    0 <= i < d.len() && 0 <= j < d.len() && i != j implies (#[trigger] d[i]).key()
                    != (#[trigger] d[j]).key() by {
                    assert(d[i] == s[i] && d[j] == s[j]);
                }
            }
            if !del.contains(l.key()) {
                assert(!has_key(w, l.key())) by {
                    if has_key(w, l.key()) {
                        let i = choose|i: int| 0 <= i < w.len() && (#[trigger] w[i]).key() == l.key();
                        assert(w.contains(w[i]));
                        let j = choose|j: int| 0 <= j < d.len() && d[j] == w[i];
                        assert(s[j] == d[j]);
                        assert(s[j].key() == s[s.len() - 1].key());
                    }
                }
                lemma_push_unique(w, l);
            }
        }
    }
}

impl Keyed for Post {
    open spec fn key(&self) -> Seq<char> {
        self.uri@
    }

    fn key_ref(&self) -> (r: &String) {
        &self.uri
    }

    fn copy_row(&self) -> (r: Post) {
        Post {
            uri: self.uri.clone(),
            cid: self.cid.clone(),
            reply_parent: copy_opt_string(&self.reply_parent),
            reply_root: copy_opt_string(&self.reply_root),
            indexed_at: self.indexed_at,
            prev: copy_opt_string(&self.prev),
            sequence: self.sequence,
            text: copy_opt_string(&self.text),
            lang: copy_opt_string(&self.lang),
            author: self.author.clone(),
            external_uri: copy_opt_string(&self.external_uri),
            external_title: copy_opt_string(&self.external_title),
            external_description: copy_opt_string(&self.external_description),
            external_thumb: copy_opt_string(&self.external_thumb),
            quote_cid: copy_opt_string(&self.quote_cid),
            quote_uri: copy_opt_string(&self.quote_uri),
            media: self.media,
            alt: copy_opt_string(&self.alt),
        }
    }
}

impl Keyed for Repost {
    open spec fn key(&self) -> Seq<char> {
        self.uri@
    }

    fn key_ref(&self) -> (r: &String) {
        &self.uri
    }

    fn copy_row(&self) -> (r: Repost) {
        Repost {
            uri: self.uri.clone(),
            cid: self.cid.clone(),
            author: self.author.clone(),
            subject_uri: self.subject_uri.clone(),
            subject_cid: self.subject_cid.clone(),
            created_at: self.created_at.clone(),
            indexed_at: self.indexed_at,
            prev: copy_opt_string(&self.prev),
            sequence: self.sequence,
        }
    }
}

impl Keyed for Like {
    open spec fn key(&self) -> Seq<char> {
        self.uri@
    }

    fn key_ref(&self) -> (r: &String) {
        &self.uri
    }

    fn copy_row(&self) -> (r: Like) {
        Like {
            uri: self.uri.clone(),
            cid: self.cid.clone(),
            author: self.author.clone(),
            subject_uri: self.subject_uri.clone(),
            subject_cid: self.subject_cid.clone(),
            created_at: self.created_at.clone(),
            indexed_at: self.indexed_at,
            prev: copy_opt_string(&self.prev),
            sequence: self.sequence,
        }
    }
}

impl Keyed for Follow {
    open spec fn key(&self) -> Seq<char> {
        self.uri@
    }

    fn key_ref(&self) -> (r: &String) {
        &self.uri
    }

    fn copy_row(&self) -> (r: Follow) {
        Follow {
            uri: self.uri.clone(),
            cid: self.cid.clone(),
            author: self.author.clone(),
            subject: self.subject.clone(),
            created_at: self.created_at.clone(),
            indexed_at: self.indexed_at.clone(),
            prev: copy_opt_string(&self.prev),
            sequence: self.sequence,
        }
    }
}

} // verus!

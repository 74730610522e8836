//! Feed order: newest first by `indexedAt`, ties broken by content identifier.
use vstd::prelude::*;
use vstd::string::*;

verus! {

/// Strict lexicographic order on character sequences, by code point.
pub open spec fn seq_lt(a: Seq<char>, b: Seq<char>) -> bool
    decreases a.len(),
{
    if a.len() == 0 {
        b.len() > 0
    } else if b.len() == 0 {
        false
    } else if a[0] != b[0] {
        (a[0] as int) < (b[0] as int)
    } else {
        seq_lt(a.drop_first(), b.drop_first())
    }
}

pub proof fn lemma_seq_lt_asym(a: Seq<char>, b: Seq<char>)
    ensures
        !(seq_lt(a, b) && seq_lt(b, a)),
    decreases a.len(),
{
    if a.len() > 0 && b.len() > 0 && a[0] == b[0] {
        lemma_seq_lt_asym(a.drop_first(), b.drop_first());
    }
}

pub proof fn lemma_seq_lt_trans(a: Seq<char>, b: Seq<char>, c: Seq<char>)
    requires
        seq_lt(a, b),
        seq_lt(b, c),
    ensures
        seq_lt(a, c),
    decreases a.len(),
{
    if a.len() > 0 && b.len() > 0 && c.len() > 0 && a[0] == b[0] && b[0] == c[0] {
        lemma_seq_lt_trans(a.drop_first(), b.drop_first(), c.drop_first());
    }
}

pub proof fn lemma_seq_lt_total(a: Seq<char>, b: Seq<char>)
    ensures
        seq_lt(a, b) || seq_lt(b, a) || a == b,
    decreases a.len(),
{
    if a.len() > 0 && b.len() > 0 && a[0] == b[0] {
        lemma_seq_lt_total(a.drop_first(), b.drop_first());
        if a.drop_first() == b.drop_first() {
            assert(a =~= seq![a[0]] + a.drop_first());
            assert(b =~= seq![b[0]] + b.drop_first());
        }
    } else if a.len() == 0 && b.len() == 0 {
        assert(a =~= b);
    }
}

/// One row of a feed page before it is rendered: a post, or a repost that carries the
/// reposted post in `quote_uri`.
#[derive(Clone, Debug)]
pub struct FeedRow {
    pub uri: String,
    pub cid: String,
    pub indexed_at: i64,
    pub quote_uri: Option<String>,
}

pub struct FeedRowView {
    pub uri: Seq<char>,
    pub cid: Seq<char>,
    pub indexed_at: i64,
    pub quote_uri: Option<Seq<char>>,
}

pub open spec fn opt_view(o: Option<String>) -> Option<Seq<char>> {
    match o {
        Some(s) => Some(s@),
        None => None,
    }
}

impl View for FeedRow {
    type V = FeedRowView;

    open spec fn view(&self) -> FeedRowView {
        FeedRowView {
            uri: self.uri@,
            cid: self.cid@,
            indexed_at: self.indexed_at,
            quote_uri: opt_view(self.quote_uri),
        }
    }
}

pub open spec fn rows_view(v: Seq<FeedRow>) -> Seq<FeedRowView> {
    v.map_values(|r: FeedRow| r@)
}

/// `a` comes strictly before `b` in time-then-identifier order (so after it in a feed).
pub open spec fn key_lt(a: FeedRowView, b: FeedRowView) -> bool {
    a.indexed_at < b.indexed_at || (a.indexed_at == b.indexed_at && seq_lt(a.cid, b.cid))
}

pub open spec fn same_key(a: FeedRowView, b: FeedRowView) -> bool {
    a.indexed_at == b.indexed_at && a.cid == b.cid
}

/// Newest first: no row is older than one that follows it.
pub open spec fn sorted_desc(r: Seq<FeedRowView>) -> bool {
    forall|i: int, j: int| 0 <= i < j < r.len() ==> !key_lt(#[trigger] r[i], #[trigger] r[j])
}

/// `r` is the `k` newest rows of `c` (all of them when there are fewer), newest first.
pub open spec fn is_top(c: Seq<FeedRowView>, k: nat, r: Seq<FeedRowView>) -> bool {
    &&& r.len() == if k < c.len() {
        k
    } else {
        c.len()
    }
    &&& sorted_desc(r)
    &&& r.no_duplicates()
    &&& forall|i: int| 0 <= i < r.len() ==> c.contains(#[trigger] r[i])
    &&& r.len() > 0 ==> forall|x: FeedRowView|
        c.contains(x) && !r.contains(x) ==> !key_lt(r.last(), x)
}

pub proof fn lemma_key_lt_asym(a: FeedRowView, b: FeedRowView)
    ensures
        !(key_lt(a, b) && key_lt(b, a)),
        !key_lt(a, a),
{
    lemma_seq_lt_asym(a.cid, b.cid);
    lemma_seq_lt_asym(a.cid, a.cid);
}

/// Not older is transitive: it is the reflexive side of a total order.
pub proof fn lemma_not_lt_trans(a: FeedRowView, b: FeedRowView, c: FeedRowView)
    requires
        !key_lt(a, b),
        !key_lt(b, c),
    ensures
        !key_lt(a, c),
{
    lemma_seq_lt_total(a.cid, b.cid);
    lemma_seq_lt_total(b.cid, c.cid);
    lemma_seq_lt_asym(a.cid, c.cid);
    if a.indexed_at == c.indexed_at && seq_lt(a.cid, c.cid) {
        if seq_lt(b.cid, a.cid) && seq_lt(c.cid, b.cid) {
            lemma_seq_lt_trans(c.cid, b.cid, a.cid);
        }
    }
}

/// Older-than-older is older.
pub proof fn lemma_lt_not_lt(a: FeedRowView, b: FeedRowView, c: FeedRowView)
    requires
        !key_lt(a, b),
        key_lt(a, c),
    ensures
        key_lt(b, c),
{
    lemma_seq_lt_total(a.cid, b.cid);
    if b.indexed_at == c.indexed_at && a.indexed_at == c.indexed_at {
        if seq_lt(b.cid, a.cid) {
            lemma_seq_lt_trans(b.cid, a.cid, c.cid);
        }
    }
}

/// Whether `a` orders strictly below `b` by code point.
pub fn str_less(a: &str, b: &str) -> (r: bool)
    ensures
        r == seq_lt(a@, b@),
{
    let na = a.unicode_len();
    let nb = b.unicode_len();
    let mut i: usize = 0;
    assert(a@.skip(0) =~= a@);
    assert(b@.skip(0) =~= b@);
    while i < na && i < nb
        invariant
            na == a@.len(),
            nb == b@.len(),
            i <= na,
            i <= nb,
            seq_lt(a@, b@) == seq_lt(a@.skip(i as int), b@.skip(i as int)),
        decreases na - i,
    {
        let ca = a.get_char(i);
        let cb = b.get_char(i);
        if ca != cb {
            assert(a@.skip(i as int)[0] == ca);
            assert(b@.skip(i as int)[0] == cb);
            return (ca as u32) < (cb as u32);
        }
        assert(a@.skip(i as int).drop_first() =~= a@.skip(i + 1));
        assert(b@.skip(i as int).drop_first() =~= b@.skip(i + 1));
        i += 1;
    }
    i == na && i < nb
}

/// Whether row `a` sorts strictly before row `b` (is older).
pub fn row_older(a: &FeedRow, b: &FeedRow) -> (r: bool)
    ensures
        r == key_lt(a@, b@),
{
    if a.indexed_at < b.indexed_at {
        true
    } else if a.indexed_at == b.indexed_at {
        str_less(a.cid.as_str(), b.cid.as_str())
    } else {
        false
    }
}

pub fn copy_opt_string(o: &Option<String>) -> (r: Option<String>)
    ensures
        r == *o,
{
    match o {
        Some(s) => Some(s.clone()),
        None => None,
    }
}

impl FeedRow {
    pub fn copy(&self) -> (r: FeedRow)
        ensures
            r == *self,
    {
        FeedRow {
            uri: self.uri.clone(),
            cid: self.cid.clone(),
            indexed_at: self.indexed_at,
            quote_uri: copy_opt_string(&self.quote_uri),
        }
    }
}

/// `x` put at `pos`, and the last row dropped when there are then more than `k`.
pub open spec fn insert_bounded(o: Seq<FeedRowView>, x: FeedRowView, pos: int, k: nat) -> Seq<
    FeedRowView,
> {
    let o2 = o.insert(pos, x);
    if o2.len() > k {
        o2.drop_last()
    } else {
        o2
    }
}

proof fn lemma_top_step(p: Seq<FeedRowView>, o: Seq<FeedRowView>, x: FeedRowView, pos: int, k: nat)
    requires
        k > 0,
        is_top(p, k, o),
        o.len() < k ==> forall|y: FeedRowView| p.contains(y) ==> o.contains(y),
        !p.contains(x),
        0 <= pos <= o.len(),
        forall|j: int| 0 <= j < pos ==> !key_lt(#[trigger] o[j], x),
        pos < o.len() ==> key_lt(o[pos], x),
    ensures
        is_top(p.push(x), k, insert_bounded(o, x, pos, k)),
        insert_bounded(o, x, pos, k).len() < k ==> forall|y: FeedRowView|
            p.push(x).contains(y) ==> insert_bounded(o, x, pos, k).contains(y),
{
    let q = p.push(x);
    let o2 = o.insert(pos, x);
    let o3 = if o2.len() > k {
        o2.drop_last()
    } else {
        o2
    };
    assert(o2.len() == o.len() + 1);
    assert forall|j: int| 0 <= j < o2.len() implies #[trigger] o2[j] == (if j < pos {
        o[j]
    } else if j == pos {
        x
    } else {
        o[j - 1]
    }) by {}
    assert(!o.contains(x)) by {
        if o.contains(x) {
            let j = choose|j: int| 0 <= j < o.len() && o[j] == x;
            assert(p.contains(o[j]));
        }
    }
    assert forall|y: FeedRowView| o2.contains(y) <==> (o.contains(y) || y == x) by {
        if o2.contains(y) {
            let j = choose|j: int| 0 <= j < o2.len() && o2[j] == y;
            if j < pos {
                assert(o[j] == y);
            } else if j > pos {
                assert(o[j - 1] == y);
            }
        }
        if o.contains(y) {
            let j = choose|j: int| 0 <= j < o.len() && o[j] == y;
            if j < pos {
                assert(o2[j] == y);
            } else {
                assert(o2[j + 1] == y);
            }
        }
        if y == x {
            assert(o2[pos] == y);
        }
    }
    assert forall|i: int, j: int| 0 <= i < j < o2.len() implies !key_lt(
        #[trigger] o2[i],
        #[trigger] o2[j],
    ) by {
        if j == pos {
        } else if i == pos {
            lemma_key_lt_asym(o[j - 1], o[pos]);
            if j - 1 > pos {
                assert(!key_lt(o[pos], o[j - 1]));
            }
            lemma_lt_not_lt(o[pos], o[j - 1], x);
            lemma_key_lt_asym(o[j - 1], x);
        } else if i < pos && j < pos {
            assert(!key_lt(o[i], o[j]));
        } else if i < pos {
            assert(!key_lt(o[i], o[j - 1]));
        } else {
            assert(!key_lt(o[i - 1], o[j - 1]));
        }
    }
    assert(o2.no_duplicates()) by {
        assert forall|i: int, j: int| 0 <= i < o2.len() && 0 <= j < o2.len() && i != j implies o2[i]
            != o2[j] by {
            if i == pos {
                if j < pos {
                    assert(o.contains(o[j]));
                } else {
                    assert(o.contains(o[j - 1]));
                }
            } else if j == pos {
                if i < pos {
                    assert(o.contains(o[i]));
                } else {
                    assert(o.contains(o[i - 1]));
                }
            } else {
                let ii = if i < pos {
                    i
                } else {
                    i - 1
                };
                let jj = if j < pos {
                    j
                } else {
                    j - 1
                };
                assert(o[ii] != o[jj]);
            }
        }
    }
    assert forall|y: FeedRowView| q.contains(y) <==> (p.contains(y) || y == x) by {
        if q.contains(y) {
            let j = choose|j: int| 0 <= j < q.len() && q[j] == y;
            if j < p.len() {
                assert(p[j] == y);
            }
        }
        if p.contains(y) {
            let j = choose|j: int| 0 <= j < p.len() && p[j] == y;
            assert(q[j] == y);
        }
        assert(q[p.len() as int] == x);
    }
    assert forall|i: int| 0 <= i < o2.len() implies q.contains(#[trigger] o2[i]) by {
        if i != pos {
            let ii = if i < pos {
                i
            } else {
                i - 1
            };
            assert(p.contains(o[ii]));
        }
    }
    if o2.len() > k {
        assert(o.len() == k);
        assert(o3.len() == k);
        assert forall|i: int, j: int| 0 <= i < j < o3.len() implies !key_lt(
            #[trigger] o3[i],
            #[trigger] o3[j],
        ) by {
            assert(!key_lt(o2[i], o2[j]));
        }
        assert forall|i: int| 0 <= i < o3.len() implies q.contains(#[trigger] o3[i]) by {
            assert(q.contains(o2[i]));
        }
        assert(o3.no_duplicates()) by {
            assert forall|i: int, j: int|
                0 <= i < o3.len() && 0 <= j < o3.len() && i != j implies o3[i] != o3[j] by {
                assert(o2[i] != o2[j]);
            }
        }
        let nl = o3.last();
        assert(nl == o2[k - 1]);
        assert(!key_lt(nl, o.last())) by {
            if pos == k {
                lemma_key_lt_asym(nl, nl);
                assert(o2[k - 1] == o[k - 1]);
            } else {
                assert(o2[k as int] == o[k - 1]);
                assert(!key_lt(o2[k - 1], o2[k as int]));
            }
        }
        assert forall|y: FeedRowView| q.contains(y) && !o3.contains(y) implies !key_lt(nl, y) by {
            if o2.contains(y) {
                let j = choose|j: int| 0 <= j < o2.len() && o2[j] == y;
                if j < k {
                    assert(o3[j] == y);
                }
                assert(j == k);
                assert(!key_lt(o2[k - 1], o2[k as int]));
            } else {
                assert(p.contains(y) && !o.contains(y));
                lemma_not_lt_trans(nl, o.last(), y);
            }
        }
    } else {
        assert(o.len() < k);
        assert forall|y: FeedRowView| q.contains(y) implies o3.contains(y) by {
            if p.contains(y) {
                assert(o.contains(y));
            }
        }
    }
}

/// The `k` newest of `c`, newest first.
pub fn top_rows(c: &Vec<FeedRow>, k: usize) -> (r: Vec<FeedRow>)
    requires
        rows_view(c@).no_duplicates(),
    ensures
        is_top(rows_view(c@), k as nat, rows_view(r@)),
{
    let ghost cv = rows_view(c@);
    let mut out: Vec<FeedRow> = Vec::new();
    if k == 0 {
        assert(rows_view(out@) =~= Seq::<FeedRowView>::empty());
        return out;
    }
    let mut idx: usize = 0;
    assert(rows_view(out@) =~= Seq::<FeedRowView>::empty());
    assert(cv.subrange(0, 0) =~= Seq::<FeedRowView>::empty());
    while idx < c.len()
        invariant
            0 < k,
            idx <= c.len(),
            cv == rows_view(c@),
            cv.no_duplicates(),
            is_top(cv.subrange(0, idx as int), k as nat, rows_view(out@)),
            rows_view(out@).len() < k ==> forall|y: FeedRowView|
                cv.subrange(0, idx as int).contains(y) ==> rows_view(out@).contains(y),
        decreases c.len() - idx,
    {
        let x = c[idx].copy();
        let ghost o = rows_view(out@);
        let mut pos: usize = 0;
        while pos < out.len() && !row_older(&out[pos], &x)
            invariant
                pos <= out.len(),
                o == rows_view(out@),
                forall|j: int| 0 <= j < pos ==> !key_lt(#[trigger] o[j], x@),
            decreases out.len() - pos,
        {
            pos += 1;
        }
        let ghost p = cv.subrange(0, idx as int);
        proof {
            assert(cv.subrange(0, idx + 1) =~= p.push(x@));
            assert(!p.contains(x@)) by {
                if p.contains(x@) {
                    let j = choose|j: int| 0 <= j < p.len() && p[j] == x@;
                    assert(cv[j] == cv[idx as int]);
                }
            }
            lemma_top_step(p, o, x@, pos as int, k as nat);
        }
        out.insert(pos, x);
        assert(rows_view(out@) =~= o.insert(pos as int, x@));
        if out.len() > k {
            let ghost before = rows_view(out@);
            out.pop();
            assert(rows_view(out@) =~= before.drop_last());
        }
        assert(rows_view(out@) == insert_bounded(o, x@, pos as int, k as nat));
        idx += 1;
    }
    assert(cv.subrange(0, c.len() as int) =~= cv);
    out
}

} // verus!

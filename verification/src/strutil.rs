//! Shared string helpers: equality, substring search, and views of optional
//! strings and of query-pair lists.
use vstd::prelude::*;

verus! {

/// View of an optional owned string as an optional character sequence.
pub open spec fn opt_view(o: Option<String>) -> Option<Seq<char>> {
    match o {
        Option::Some(s) => Option::Some(s@),
        Option::None => Option::None,
    }
}

/// View of a list of (key, value) string pairs.
pub open spec fn pairs_view(q: Seq<(String, String)>) -> Seq<(Seq<char>, Seq<char>)> {
    q.map_values(|p: (String, String)| (p.0@, p.1@))
}

/// View of a list of owned strings.
pub open spec fn strs_view(s: Seq<String>) -> Seq<Seq<char>> {
    s.map_values(|x: String| x@)
}

/// True when `needle` occurs as a contiguous run inside `hay`.
pub open spec fn has_substring(hay: Seq<char>, needle: Seq<char>) -> bool {
    exists|i: int|
        0 <= i && i + needle.len() <= hay.len() && #[trigger] hay.subrange(i, i + needle.len())
            == needle
}

/// Character-for-character equality of two string slices.
pub fn str_eq(a: &str, b: &str) -> (r: bool)
    ensures
        r == (a@ == b@),
{
    a.to_owned() == b.to_owned()
}

/// Whether `needle` matches `hay` at offset `i`.
fn match_at(hay: &str, needle: &str, i: usize, n: usize) -> (r: bool)
    requires
        i + n <= hay@.len(),
        hay@.len() <= usize::MAX,
        n == needle@.len(),
    ensures
        r == (hay@.subrange(i as int, i as int + n as int) == needle@),
{
    let mut j: usize = 0;
    while j < n
        invariant
            i + n <= hay@.len(),
            hay@.len() <= usize::MAX,
            n == needle@.len(),
            j <= n,
            forall|k: int| 0 <= k < j ==> hay@[i + k] == needle@[k],
        decreases n - j,
    {
        if hay.get_char(i + j) != needle.get_char(j) {
            assert(hay@.subrange(i as int, i as int + n as int)[j as int] == hay@[i + j]);
            return false;
        }
        j = j + 1;
    }
    assert(hay@.subrange(i as int, i as int + n as int) =~= needle@);
    true
}

/// Substring search over unicode characters.
pub fn str_contains(hay: &str, needle: &str) -> (r: bool)
    ensures
        r == has_substring(hay@, needle@),
{
    let h = hay.unicode_len();
    let n = needle.unicode_len();
    if n > h {
        return false;
    }
    if n == 0 {
        assert(hay@.subrange(0, 0 + needle@.len() as int) =~= needle@);
        return true;
    }
    let mut i: usize = 0;
    while i <= h - n
        invariant
            1 <= n <= h,
            h == hay@.len(),
            n == needle@.len(),
            i <= h - n + 1,
            forall|k: int| 0 <= k < i ==> #[trigger] hay@.subrange(k, k + n as int) != needle@,
        decreases h - n - i + 1,
    {
        if match_at(hay, needle, i, n) {
            assert(hay@.subrange(i as int, i as int + n as int) == needle@);
            return true;
        }
        i = i + 1;
    }
    false
}

/// Appending one element changes a filtered sequence by that element alone.
pub proof fn lemma_filter_push<A>(s: Seq<A>, x: A, p: spec_fn(A) -> bool)
    ensures
        s.push(x).filter(p) == if p(x) {
            s.filter(p).push(x)
        } else {
            s.filter(p)
        },
{
    reveal(Seq::filter);
    assert(s.push(x).drop_last() =~= s);
    assert(s.push(x).last() == x);
}

/// Filtering distributes over concatenation.
pub proof fn lemma_filter_app<A>(a: Seq<A>, b: Seq<A>, p: spec_fn(A) -> bool)
    ensures
        (a + b).filter(p) == a.filter(p) + b.filter(p),
    decreases b.len(),
{
    if b.len() == 0 {
        assert(a + b =~= a);
        assert(b.filter(p) =~= Seq::<A>::empty()) by {
            reveal(Seq::filter);
        }
        assert(a.filter(p) + b.filter(p) =~= a.filter(p));
    } else {
        lemma_filter_app(a, b.drop_last(), p);
        lemma_filter_push(a + b.drop_last(), b.last(), p);
        lemma_filter_push(b.drop_last(), b.last(), p);
        assert((a + b.drop_last()).push(b.last()) =~= a + b);
        assert(b.drop_last().push(b.last()) =~= b);
        if p(b.last()) {
            assert(a.filter(p) + b.drop_last().filter(p).push(b.last()) =~= (a.filter(p)
                + b.drop_last().filter(p)).push(b.last()));
        }
    }
}

/// Last value in `q` stored under `key`, if any; later pairs shadow earlier
/// ones, the way collecting pairs into a map does.
pub open spec fn query_lookup(q: Seq<(Seq<char>, Seq<char>)>, key: Seq<char>) -> Option<Seq<char>>
    decreases q.len(),
{
    if q.len() == 0 {
        Option::None
    } else if q.last().0 == key {
        Option::Some(q.last().1)
    } else {
        query_lookup(q.drop_last(), key)
    }
}

/// Executable lookup matching `query_lookup` on the pairs' views.
pub fn query_get(q: &Vec<(String, String)>, key: &str) -> (r: Option<String>)
    ensures
        opt_view(r) == query_lookup(pairs_view(q@), key@),
{
    let mut i: usize = q.len();
    assert(pairs_view(q@).subrange(0, q@.len() as int) =~= pairs_view(q@));
    while i > 0
        invariant
            i <= q@.len(),
            query_lookup(pairs_view(q@), key@) == query_lookup(
                pairs_view(q@).subrange(0, i as int),
                key@,
            ),
        decreases i,
    {
        i = i - 1;
        assert(pairs_view(q@).subrange(0, i + 1).drop_last() =~= pairs_view(q@).subrange(
            0,
            i as int,
        ));
        assert(pairs_view(q@).subrange(0, i + 1).last() == (q@[i as int].0@, q@[i as int].1@));
        if str_eq(q[i].0.as_str(), key) {
            return Some(q[i].1.clone());
        }
    }
    assert(pairs_view(q@).subrange(0, 0) =~= Seq::<(Seq<char>, Seq<char>)>::empty());
    None
}

} // verus!

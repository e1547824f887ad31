//! A plain JSON tree, the shape the template document is handled in, with
//! first-match key lookup over object pairs.
use vstd::prelude::*;
use crate::strutil::str_eq;

verus! {

/// One JSON value. Numbers keep the representation they were read in; a double is
/// carried opaquely as its bit pattern and never interpreted here.
#[derive(Debug, PartialEq)]
pub enum Json {
    Null,
    Bool(bool),
    Int(i64),
    UInt(u64),
    Float(u64),
    Str(String),
    Arr(Vec<Json>),
    Obj(Vec<(String, Json)>),
}

/// Index of the first pair stored under `key`, or -1 when there is none.
pub open spec fn key_idx(ps: Seq<(String, Json)>, key: Seq<char>) -> int
    decreases ps.len(),
{
    if ps.len() == 0 {
        -1
    } else if ps[0].0@ == key {
        0
    } else if key_idx(ps.drop_first(), key) == -1 {
        -1
    } else {
        key_idx(ps.drop_first(), key) + 1
    }
}

/// `key_idx` finds exactly the first pair under the key.
pub proof fn lemma_key_idx(ps: Seq<(String, Json)>, key: Seq<char>)
    ensures
        key_idx(ps, key) == -1 ==> forall|j: int| 0 <= j < ps.len() ==> (#[trigger] ps[j]).0@
            != key,
        key_idx(ps, key) != -1 ==> 0 <= key_idx(ps, key) < ps.len() && ps[key_idx(ps, key)].0@
            == key && (forall|j: int| 0 <= j < key_idx(ps, key) ==> (#[trigger] ps[j]).0@ != key),
    decreases ps.len(),
{
    if ps.len() == 0 {
    } else if ps[0].0@ == key {
    } else {
        lemma_key_idx(ps.drop_first(), key);
        assert(forall|j: int| 1 <= j < ps.len() ==> #[trigger] ps[j] == ps.drop_first()[j - 1]);
    }
}

/// First index holding `key`, executably.
pub fn find_key(ps: &Vec<(String, Json)>, key: &str) -> (r: Option<usize>)
    ensures
        r matches Some(i) ==> key_idx(ps@, key@) == i as int,
        r is None ==> key_idx(ps@, key@) == -1,
{
    let mut i: usize = 0;
    while i < ps.len()
        invariant
            i <= ps@.len(),
            forall|j: int| 0 <= j < i ==> (#[trigger] ps@[j]).0@ != key@,
        decreases ps@.len() - i,
    {
        if str_eq(ps[i].0.as_str(), key) {
            proof {
                lemma_key_idx(ps@, key@);
            }
            return Some(i);
        }
        i = i + 1;
    }
    proof {
        lemma_key_idx(ps@, key@);
    }
    None
}

} // verus!

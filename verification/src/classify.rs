//! The node classifier: the full label list of the surviving nodes, and the
//! subset of labels naming AI-service-friendly regions, found by substring
//! matching against a fixed keyword set.
use vstd::prelude::*;
use crate::node::NodeDescriptor;
use crate::strutil::{has_substring, lemma_filter_push, str_contains};

verus! {

/// A label names an AI-service-friendly region.
pub open spec fn is_premium(l: Seq<char>) -> bool {
    ||| has_substring(l, "美国"@)
    ||| has_substring(l, "日本"@)
    ||| has_substring(l, "新加坡"@)
    ||| has_substring(l, "韩国"@)
    ||| has_substring(l, "英国"@)
    ||| has_substring(l, "德国"@)
    ||| has_substring(l, "法国"@)
    ||| has_substring(l, "加拿大"@)
}

/// Executable test for `is_premium`.
fn is_premium_label(l: &str) -> (r: bool)
    ensures
        r == is_premium(l@),
{
    str_contains(l, "美国") || str_contains(l, "日本") || str_contains(l, "新加坡")
        || str_contains(l, "韩国") || str_contains(l, "英国") || str_contains(l, "德国")
        || str_contains(l, "法国") || str_contains(l, "加拿大")
}

/// The labels of the surviving nodes, in order.
pub fn node_labels(nodes: &Vec<NodeDescriptor>) -> (r: Vec<String>)
    ensures
        r@.len() == nodes@.len(),
        forall|i: int| 0 <= i < nodes@.len() ==> r@[i] == nodes@[i].label,
{
    let mut r: Vec<String> = Vec::new();
    let mut i: usize = 0;
    while i < nodes.len()
        invariant
            i <= nodes@.len(),
            r@.len() == i,
            forall|k: int| 0 <= k < i ==> r@[k] == nodes@[k].label,
        decreases nodes@.len() - i,
    {
        r.push(nodes[i].label.clone());
        i = i + 1;
    }
    r
}

/// The classified subset: the labels naming a premium region, in order.
pub fn classify_labels(labels: &Vec<String>) -> (r: Vec<String>)
    ensures
        r@ == labels@.filter(|l: String| is_premium(l@)),
{
    let mut r: Vec<String> = Vec::new();
    let mut i: usize = 0;
    proof {
        assert(labels@.subrange(0, 0) =~= Seq::<String>::empty());
        assert(Seq::<String>::empty().filter(|l: String| is_premium(l@)) =~= Seq::<
            String,
        >::empty()) by {
            reveal(Seq::filter);
        }
    }
    while i < labels.len()
        invariant
            i <= labels@.len(),
            r@ == labels@.subrange(0, i as int).filter(|l: String| is_premium(l@)),
        decreases labels@.len() - i,
    {
        proof {
            assert(labels@.subrange(0, i + 1) =~= labels@.subrange(0, i as int).push(
                labels@[i as int],
            ));
            lemma_filter_push(
                labels@.subrange(0, i as int),
                labels@[i as int],
                |l: String| is_premium(l@),
            );
        }
        if is_premium_label(labels[i].as_str()) {
            r.push(labels[i].clone());
        }
        i = i + 1;
    }
    proof {
        assert(labels@.subrange(0, labels@.len() as int) =~= labels@);
    }
    r
}

/// A label containing a region keyword is always in the classified subset.
pub proof fn lemma_premium_label_included(labels: Seq<String>, i: int)
    requires
        0 <= i < labels.len(),
        is_premium(labels[i]@),
    ensures
        labels.filter(|l: String| is_premium(l@)).contains(labels[i]),
{
    labels.lemma_filter_contains(|l: String| is_premium(l@), i);
}

/// A label containing no region keyword is never in the classified subset.
pub proof fn lemma_plain_label_excluded(labels: Seq<String>, l: String)
    requires
        !is_premium(l@),
    ensures
        !labels.filter(|l2: String| is_premium(l2@)).contains(l),
{
    let out = labels.filter(|l2: String| is_premium(l2@));
    if out.contains(l) {
        let j = choose|j: int| 0 <= j < out.len() && out[j] == l;
        labels.lemma_filter_pred(|l2: String| is_premium(l2@), j);
    }
}

} // verus!

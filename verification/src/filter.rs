//! The node filter: placeholder entries and nodes with an excluded label
//! are dropped, order is preserved, and the dropped labels are handed back
//! so the driver can report them.
use vstd::prelude::*;
use crate::node::NodeDescriptor;
use crate::strutil::{has_substring, str_contains, str_eq, strs_view};

verus! {

/// A node is excluded when its host is the placeholder address, or its
/// label contains any exclusion keyword.
pub open spec fn excluded(n: NodeDescriptor, igs: Seq<Seq<char>>) -> bool {
    n.host@ == "0.0.0.0"@ || exists|i: int|
        0 <= i < igs.len() && has_substring(n.label@, #[trigger] igs[i])
}

/// The nodes that survive filtering, in order: placeholders and excluded
/// nodes are gone.
pub open spec fn filter_spec(s: Seq<Option<NodeDescriptor>>, igs: Seq<Seq<char>>) -> Seq<
    NodeDescriptor,
>
    decreases s.len(),
{
    if s.len() == 0 {
        Seq::empty()
    } else {
        let rest = filter_spec(s.drop_last(), igs);
        match s.last() {
            Option::Some(n) => if !excluded(n, igs) {
                rest.push(n)
            } else {
                rest
            },
            Option::None => rest,
        }
    }
}

/// The labels of the real nodes that filtering dropped, in order.
pub open spec fn dropped_spec(s: Seq<Option<NodeDescriptor>>, igs: Seq<Seq<char>>) -> Seq<String>
    decreases s.len(),
{
    if s.len() == 0 {
        Seq::empty()
    } else {
        let rest = dropped_spec(s.drop_last(), igs);
        match s.last() {
            Option::Some(n) => if excluded(n, igs) {
                rest.push(n.label)
            } else {
                rest
            },
            Option::None => rest,
        }
    }
}

/// Executable exclusion test.
fn is_excluded(n: &NodeDescriptor, ignores: &Vec<String>) -> (r: bool)
    ensures
        r == excluded(*n, strs_view(ignores@)),
{
    if str_eq(n.host.as_str(), "0.0.0.0") {
        return true;
    }
    let mut i: usize = 0;
    while i < ignores.len()
        invariant
            i <= ignores@.len(),
            forall|k: int| 0 <= k < i ==> !has_substring(n.label@, #[trigger] strs_view(
                ignores@,
            )[k]),
        decreases ignores@.len() - i,
    {
        if str_contains(n.label.as_str(), ignores[i].as_str()) {
            assert(has_substring(n.label@, strs_view(ignores@)[i as int]));
            return true;
        }
        i = i + 1;
    }
    false
}

/// Drops placeholders, nodes on the placeholder host, and nodes whose
/// label matches an exclusion keyword; returns the kept nodes and the
/// dropped labels, both in input order.
pub fn filter_nodes(nodes: Vec<Option<NodeDescriptor>>, ignores: &Vec<String>) -> (r: (
    Vec<NodeDescriptor>,
    Vec<String>,
))
    ensures
        r.0@ == filter_spec(nodes@, strs_view(ignores@)),
        r.1@ == dropped_spec(nodes@, strs_view(ignores@)),
{
    let ghost orig = nodes@;
    let ghost igs = strs_view(ignores@);
    let mut rest = nodes;
    let ghost mut done: Seq<Option<NodeDescriptor>> = Seq::empty();
    let mut kept: Vec<NodeDescriptor> = Vec::new();
    let mut dropped: Vec<String> = Vec::new();
    proof {
        assert(done + rest@ =~= orig);
    }
    while rest.len() > 0
        invariant
            orig == done + rest@,
            kept@ == filter_spec(done, igs),
            dropped@ == dropped_spec(done, igs),
            igs == strs_view(ignores@),
        decreases rest@.len(),
    {
        let ghost done0 = done;
        let ghost rest0 = rest@;
        let o = rest.remove(0);
        proof {
            done = done.push(o);
            assert(done.drop_last() =~= done0);
            assert(done + rest@ =~= done0 + rest0);
        }
        match o {
            Some(n) => {
                if is_excluded(&n, ignores) {
                    dropped.push(n.label);
                } else {
                    kept.push(n);
                }
            },
            None => {},
        }
    }
    proof {
        assert(done =~= orig);
    }
    (kept, dropped)
}

/// Everything the filter keeps passes the exclusion test.
pub proof fn lemma_filter_spec_sound(s: Seq<Option<NodeDescriptor>>, igs: Seq<Seq<char>>)
    ensures
        forall|j: int|
            0 <= j < filter_spec(s, igs).len() ==> !excluded(
                #[trigger] filter_spec(s, igs)[j],
                igs,
            ),
    decreases s.len(),
{
    if s.len() > 0 {
        lemma_filter_spec_sound(s.drop_last(), igs);
        let rest = filter_spec(s.drop_last(), igs);
        let out = filter_spec(s, igs);
        match s.last() {
            Option::Some(n) => {
                if !excluded(n, igs) {
                    assert forall|j: int| 0 <= j < out.len() implies !excluded(
                        #[trigger] out[j],
                        igs,
                    ) by {
                        if j < rest.len() {
                            assert(out[j] == rest[j]);
                        } else {
                            assert(out[j] == n);
                        }
                    }
                }
            },
            Option::None => {},
        }
    }
}

/// Every kept node is one of the input entries.
pub proof fn lemma_filter_spec_from_input(s: Seq<Option<NodeDescriptor>>, igs: Seq<Seq<char>>)
    ensures
        forall|j: int|
            0 <= j < filter_spec(s, igs).len() ==> exists|i: int|
                0 <= i < s.len() && s[i] == Option::Some(#[trigger] filter_spec(s, igs)[j]),
    decreases s.len(),
{
    if s.len() > 0 {
        lemma_filter_spec_from_input(s.drop_last(), igs);
        let rest = filter_spec(s.drop_last(), igs);
        let out = filter_spec(s, igs);
        assert forall|j: int| 0 <= j < out.len() implies exists|i: int|
            0 <= i < s.len() && s[i] == Option::Some(#[trigger] out[j]) by {
            if j < rest.len() {
                assert(out[j] == rest[j]);
                let i = choose|i: int|
                    0 <= i < s.drop_last().len() && s.drop_last()[i] == Option::Some(rest[j]);
                assert(s[i] == Option::Some(out[j]));
            } else {
                assert(s[s.len() - 1] == Option::Some(out[j]));
            }
        }
    }
}

/// A node on the placeholder host, or one whose label holds an exclusion
/// keyword, never appears in the filter's output.
pub proof fn lemma_excluded_never_kept(
    s: Seq<Option<NodeDescriptor>>,
    igs: Seq<Seq<char>>,
    n: NodeDescriptor,
)
    requires
        excluded(n, igs),
    ensures
        !filter_spec(s, igs).contains(n),
{
    lemma_filter_spec_sound(s, igs);
    if filter_spec(s, igs).contains(n) {
        let j = choose|j: int|
            0 <= j < filter_spec(s, igs).len() && filter_spec(s, igs)[j] == n;
    }
}

} // verus!

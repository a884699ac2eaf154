//! The Sv39 page-table tree as a mathematical object: what a sequence of
//! page-table pages translates an address to, when such a sequence is a
//! well-formed tree, and how linking in a page and writing a leaf entry act
//! on the translation.
use vstd::prelude::*;
use crate::riscv::{
    spec_pa2pte, spec_pg_round_down, spec_pte2pa, spec_pte_flags, spec_pte_valid, spec_px, MAXPA,
    MAXVA, PTE_V,
};
use crate::vm::{PteSlot, TableNode};

verus! {

/// Entry `a` of page `n`.
pub open spec fn entry(nodes: Seq<TableNode>, n: int, a: int) -> u64 {
    nodes[n].table.ptes[a]
}

/// Whether some page of the tree lies at physical address `pa`.
pub open spec fn holds(nodes: Seq<TableNode>, pa: u64) -> bool {
    exists|j: int| 0 <= j < nodes.len() && #[trigger] nodes[j].pa == pa
}

/// The position of the page at physical address `pa`.
pub open spec fn index_of(nodes: Seq<TableNode>, pa: u64) -> int {
    choose|j: int| 0 <= j < nodes.len() && #[trigger] nodes[j].pa == pa
}

/// The page that entry `a` of page `n` leads to: the entry must be valid
/// and its address must be that of a page of the tree.
#[verifier::opaque]
pub open spec fn child(nodes: Seq<TableNode>, n: int, a: int) -> Option<int> {
    let e = entry(nodes, n, a);
    if spec_pte_valid(e) && holds(nodes, spec_pte2pa(e)) {
        Some(index_of(nodes, spec_pte2pa(e)))
    } else {
        None
    }
}

/// How many of the two upper levels exist on the way to `va`.
pub open spec fn depth(nodes: Seq<TableNode>, va: u64) -> int {
    match child(nodes, 0, spec_px(2, va)) {
        None => 0,
        Some(n1) => match child(nodes, n1, spec_px(1, va)) {
            None => 1,
            Some(_) => 2,
        },
    }
}

/// The level-0 page that holds the leaf entry for `va`, if the walk gets there.
pub open spec fn leaf_table(nodes: Seq<TableNode>, va: u64) -> Option<int> {
    match child(nodes, 0, spec_px(2, va)) {
        None => None,
        Some(n1) => child(nodes, n1, spec_px(1, va)),
    }
}

/// What the hardware walk finds for `va`: the valid leaf entry, if any.
#[verifier::opaque]
pub open spec fn lookup(nodes: Seq<TableNode>, va: u64) -> Option<u64> {
    if va >= MAXVA {
        None
    } else {
        match leaf_table(nodes, va) {
            None => None,
            Some(n0) => {
                let e = entry(nodes, n0, spec_px(0, va));
                if spec_pte_valid(e) {
                    Some(e)
                } else {
                    None
                }
            },
        }
    }
}

/// Entry `a` of page `i` is a valid pointer from an upper level.
pub open spec fn is_link(nodes: Seq<TableNode>, i: int, a: int) -> bool {
    &&& 0 <= i < nodes.len()
    &&& 0 <= a < 512
    &&& nodes[i].level >= 1
    &&& spec_pte_valid(entry(nodes, i, a))
}

/// Pages lie at distinct addresses.
pub open spec fn distinct(nodes: Seq<TableNode>) -> bool {
    forall|i: int, j: int|
        0 <= i < j < nodes.len() ==> (#[trigger] nodes[i]).pa != (#[trigger] nodes[j]).pa
}

/// The tree is well formed: the root is the only level-2 page, pages lie at
/// distinct page-aligned addresses below `MAXPA`, every valid upper-level
/// entry carries no flag but the valid bit and points to a page one level
/// down, and no page has two parents.
#[verifier::opaque]
pub open spec fn tree_wf(nodes: Seq<TableNode>) -> bool {
    &&& nodes.len() >= 1
    &&& nodes[0].level == 2
    &&& forall|i: int| 0 < i < nodes.len() ==> (#[trigger] nodes[i]).level <= 1
    &&& forall|i: int|
        0 <= i < nodes.len() ==> (#[trigger] nodes[i]).pa % 4096 == 0 && nodes[i].pa < MAXPA
    &&& distinct(nodes)
    &&& forall|i: int, a: int| #[trigger]
        is_link(nodes, i, a) ==> {
            let e = entry(nodes, i, a);
            &&& holds(nodes, spec_pte2pa(e))
            &&& nodes[index_of(nodes, spec_pte2pa(e))].level + 1 == nodes[i].level
            &&& spec_pte_flags(e) == PTE_V
        }
    &&& forall|i: int, a: int, k: int, b: int|
        #[trigger] is_link(nodes, i, a) && #[trigger] is_link(nodes, k, b) && spec_pte2pa(
            entry(nodes, i, a),
        ) == spec_pte2pa(entry(nodes, k, b)) ==> i == k && a == b
}

/// Among pages at distinct addresses, the page at `pa` is found at its position.
pub proof fn lemma_index_of(nodes: Seq<TableNode>, j: int)
    requires
        0 <= j < nodes.len(),
        distinct(nodes),
    ensures
        holds(nodes, nodes[j].pa),
        index_of(nodes, nodes[j].pa) == j,
{
    let pa = nodes[j].pa;
    assert(0 <= j < nodes.len() && nodes[j].pa == pa);
    let c = index_of(nodes, pa);
    assert(0 <= c < nodes.len() && nodes[c].pa == pa);
    if c < j {
        assert(nodes[c].pa != nodes[j].pa);
    } else if j < c {
        assert(nodes[j].pa != nodes[c].pa);
    }
}

/// A well-formed tree has a root, and its pages lie at distinct addresses.
pub proof fn lemma_tree_root(nodes: Seq<TableNode>)
    requires
        tree_wf(nodes),
    ensures
        nodes.len() >= 1,
        nodes[0].level == 2,
        distinct(nodes),
{
    reveal(tree_wf);
}

/// The per-page facts of a well-formed tree.
pub proof fn lemma_tree_pages(nodes: Seq<TableNode>, i: int)
    requires
        tree_wf(nodes),
        0 <= i < nodes.len(),
    ensures
        nodes.len() >= 1,
        nodes[0].level == 2,
        i > 0 ==> nodes[i].level <= 1,
        nodes[i].level <= 2,
        nodes[i].pa % 4096 == 0,
        nodes[i].pa < MAXPA,
        distinct(nodes),
{
    reveal(tree_wf);
}

/// An entry that is not valid leads nowhere.
pub proof fn lemma_child_none(nodes: Seq<TableNode>, i: int, a: int)
    requires
        !spec_pte_valid(entry(nodes, i, a)),
    ensures
        child(nodes, i, a) is None,
{
    reveal(child);
}

/// Only a valid entry leads anywhere.
pub proof fn lemma_child_some(nodes: Seq<TableNode>, i: int, a: int)
    requires
        child(nodes, i, a) is Some,
    ensures
        spec_pte_valid(entry(nodes, i, a)),
{
    reveal(child);
}

/// In a well-formed tree a link leads to a page one level down, and no
/// other link leads there.
pub proof fn lemma_child(nodes: Seq<TableNode>, i: int, a: int)
    requires
        tree_wf(nodes),
        is_link(nodes, i, a),
    ensures
        child(nodes, i, a) is Some,
        0 < child(nodes, i, a).unwrap() < nodes.len(),
        nodes[child(nodes, i, a).unwrap()].pa == spec_pte2pa(entry(nodes, i, a)),
        nodes[child(nodes, i, a).unwrap()].level + 1 == nodes[i].level,
        spec_pte_flags(entry(nodes, i, a)) == PTE_V,
        forall|k: int, b: int|
            is_link(nodes, k, b) && child(nodes, k, b) == child(nodes, i, a) ==> k == i && b == a,
{
    reveal(tree_wf);
    reveal(child);
    let e = entry(nodes, i, a);
    assert(holds(nodes, spec_pte2pa(e)));
    let c = index_of(nodes, spec_pte2pa(e));
    assert(0 <= c < nodes.len() && nodes[c].pa == spec_pte2pa(e));
    if c == 0 {
        assert(nodes[0].level == 2);
        if i > 0 {
            assert(nodes[i].level <= 1);
        }
    }
    assert forall|k: int, b: int|
        is_link(nodes, k, b) && child(nodes, k, b) == child(nodes, i, a) implies k == i && b
        == a by {
        let f = entry(nodes, k, b);
        assert(holds(nodes, spec_pte2pa(f)));
        let d = index_of(nodes, spec_pte2pa(f));
        assert(0 <= d < nodes.len() && nodes[d].pa == spec_pte2pa(f));
    }
}

/// Facts about how a physical address and flags are packed into an entry.
pub proof fn lemma_pte_encoding(pa: u64, perm: u64)
    by (bit_vector)
    requires
        pa % 4096 == 0,
        perm < 1024,
    ensures
        ((((((pa / 4096) * 1024) as u64) | perm | 1) / 1024) * 4096) as u64 == pa,
        (((((pa / 4096) * 1024) as u64) | perm | 1) % 1024) as u64 == perm | 1,
        ((((pa / 4096) * 1024) as u64) | perm | 1) % 2 == 1,
        ((((((pa / 4096) * 1024) as u64) | 1) / 1024) * 4096) as u64 == pa,
        (((((pa / 4096) * 1024) as u64) | 1) % 1024) as u64 == 1,
        ((((pa / 4096) * 1024) as u64) | 1) % 2 == 1,
        perm | 1 < 1024,
{
}

/// An entry with the valid bit or-ed in is valid.
pub proof fn lemma_leaf_pte_valid(x: u64, perm: u64)
    by (bit_vector)
    ensures
        (x | perm | 1) % 2 == 1,
{
}

/// How the three table indices make up the page number of an address.
pub proof fn lemma_px_split(x: u64)
    by (bit_vector)
    ensures
        x / 0x20_0000 == (x / 0x1000) / 512,
        x / 0x4000_0000 == (x / 0x1000) / 0x4_0000,
        x < 0x80_0000_0000 ==> x / 0x1000 == ((x / 0x4000_0000) % 512) * 0x4_0000 + ((x
            / 0x20_0000) % 512) * 512 + (x / 0x1000) % 512,
{
}

/// Two addresses lie in the same page.
pub open spec fn same_page(x: u64, y: u64) -> bool {
    x / 4096 == y / 4096
}

/// Addresses below `MAXVA` share a page exactly if they select the same
/// entry at each of the three levels.
pub proof fn lemma_same_page(x: u64, y: u64)
    requires
        x < MAXVA,
        y < MAXVA,
    ensures
        same_page(x, y) <==> (spec_px(2, x) == spec_px(2, y) && spec_px(1, x) == spec_px(1, y)
            && spec_px(0, x) == spec_px(0, y)),
{
    lemma_px_split(x);
    lemma_px_split(y);
}

/// A physical address that a new page of the tree may lie at.
pub open spec fn usable(nodes: Seq<TableNode>, pa: u64) -> bool {
    pa % 4096 == 0 && pa < MAXPA && !holds(nodes, pa)
}

/// `s2` has the pages of `s0` at the same places, with the same addresses
/// and levels, and the same entries but for entry `a` of page `n`.
pub open spec fn same_but(s0: Seq<TableNode>, s2: Seq<TableNode>, n: int, a: int) -> bool {
    &&& s2.len() >= s0.len()
    &&& 0 <= n < s0.len()
    &&& 0 <= a < 512
    &&& forall|i: int|
        0 <= i < s0.len() ==> (#[trigger] s2[i]).pa == s0[i].pa && s2[i].level == s0[i].level
    &&& forall|i: int, b: int|
        0 <= i < s0.len() && 0 <= b < 512 && !(i == n && b == a) ==> #[trigger] entry(s2, i, b)
            == entry(s0, i, b)
}

/// `s2` is `s0` with one more page: a zeroed page at `pa`, one level below
/// page `p`, linked under entry `a` of page `p`, which was not valid
/// before and now holds the address of the new page with the valid bit
/// and no other flag.  Nothing else has changed.
pub open spec fn linked(s0: Seq<TableNode>, s2: Seq<TableNode>, p: int, a: int, pa: u64) -> bool {
    &&& same_but(s0, s2, p, a)
    &&& s2.len() == s0.len() + 1
    &&& s0[p].level >= 1
    &&& !spec_pte_valid(entry(s0, p, a))
    &&& s2[s0.len() as int].pa == pa
    &&& s2[s0.len() as int].level + 1 == s0[p].level
    &&& forall|b: int| 0 <= b < 512 ==> #[trigger] entry(s2, s0.len() as int, b) == 0
    &&& entry(s2, p, a) == spec_pa2pte(pa) | PTE_V
    &&& spec_pte_valid(entry(s2, p, a))
    &&& spec_pte2pa(entry(s2, p, a)) == pa
    &&& spec_pte_flags(entry(s2, p, a)) == PTE_V
    &&& usable(s0, pa)
}

/// The entry at which the walk for `va` stops for want of a table: the
/// page that holds it and its index there.
pub open spec fn missing_link(nodes: Seq<TableNode>, va: u64) -> (int, int) {
    match child(nodes, 0, spec_px(2, va)) {
        None => (0, spec_px(2, va)),
        Some(n1) => (n1, spec_px(1, va)),
    }
}

/// `s2` is `s0` with one more table on the way to `va`: a zeroed page,
/// linked where the walk for `va` stopped.
pub open spec fn grown_by_one(s0: Seq<TableNode>, s2: Seq<TableNode>, va: u64) -> bool {
    exists|pa: u64| #[trigger]
        linked(s0, s2, missing_link(s0, va).0, missing_link(s0, va).1, pa)
}

/// `s2` is `s0` with `levels` more tables on the way to `va`, each a zeroed
/// page linked where the walk for `va` stopped.
pub open spec fn grown(s0: Seq<TableNode>, s2: Seq<TableNode>, va: u64, levels: int) -> bool {
    if levels <= 0 {
        s2 == s0
    } else if levels == 1 {
        grown_by_one(s0, s2, va)
    } else {
        exists|s1: Seq<TableNode>| #[trigger]
            grown_by_one(s0, s1, va) && grown_by_one(s1, s2, va)
    }
}

/// `s2` is `s0` with leaf entry `a` of the level-0 page `n` set to `e`.
pub open spec fn leaf_written(
    s0: Seq<TableNode>,
    s2: Seq<TableNode>,
    n: int,
    a: int,
    e: u64,
) -> bool {
    &&& same_but(s0, s2, n, a)
    &&& s2.len() == s0.len()
    &&& s0[n].level == 0
    &&& entry(s2, n, a) == e
}

pub proof fn lemma_linked_distinct(s0: Seq<TableNode>, s2: Seq<TableNode>, p: int, a: int, pa: u64)
    requires
        tree_wf(s0),
        linked(s0, s2, p, a, pa),
    ensures
        distinct(s2),
{
    lemma_tree_root(s0);
    assert forall|i: int, k: int| 0 <= i < k < s2.len() implies (#[trigger] s2[i]).pa != (
    #[trigger] s2[k]).pa by {
        assert(s0[i].pa == s2[i].pa);
        if k < s0.len() {
            assert(s0[k].pa == s2[k].pa);
            assert(s0[i].pa != s0[k].pa);
        } else {
            if s0[i].pa == pa {
                assert(holds(s0, pa));
            }
        }
    }
}

pub proof fn lemma_written_distinct(s0: Seq<TableNode>, s2: Seq<TableNode>, n: int, a: int, e: u64)
    requires
        tree_wf(s0),
        leaf_written(s0, s2, n, a, e),
    ensures
        distinct(s2),
{
    lemma_tree_root(s0);
    assert forall|i: int, k: int| 0 <= i < k < s2.len() implies (#[trigger] s2[i]).pa != (
    #[trigger] s2[k]).pa by {
        assert(s0[i].pa == s2[i].pa);
        assert(s0[k].pa == s2[k].pa);
        assert(s0[i].pa != s0[k].pa);
    }
}

/// An entry of an upper-level page that was not touched leads where it led,
/// as long as page addresses stay distinct.
pub proof fn lemma_same_child(
    s0: Seq<TableNode>,
    s2: Seq<TableNode>,
    n: int,
    a: int,
    i: int,
    b: int,
)
    requires
        tree_wf(s0),
        same_but(s0, s2, n, a),
        distinct(s2),
        0 <= i < s0.len(),
        0 <= b < 512,
        s0[i].level >= 1,
        !(i == n && b == a),
    ensures
        child(s2, i, b) == child(s0, i, b),
{
    let e = entry(s0, i, b);
    assert(entry(s2, i, b) == e);
    if spec_pte_valid(e) {
        assert(is_link(s0, i, b));
        lemma_child(s0, i, b);
        let c = child(s0, i, b).unwrap();
        assert(s2[c].pa == s0[c].pa);
        lemma_index_of(s2, c);
        reveal(child);
    } else {
        lemma_child_none(s0, i, b);
        lemma_child_none(s2, i, b);
    }
}

/// The new link leads to the new page, and the new page is empty.
pub proof fn lemma_linked_new(s0: Seq<TableNode>, s2: Seq<TableNode>, p: int, a: int, pa: u64)
    requires
        tree_wf(s0),
        linked(s0, s2, p, a, pa),
    ensures
        child(s0, p, a) is None,
        child(s2, p, a) == Some(s0.len() as int),
        forall|b: int| 0 <= b < 512 ==> child(s2, s0.len() as int, b) is None,
{
    lemma_linked_distinct(s0, s2, p, a, pa);
    lemma_index_of(s2, s0.len() as int);
    lemma_child_none(s0, p, a);
    assert(child(s2, p, a) == Some(s0.len() as int)) by {
        reveal(child);
    }
    assert forall|b: int| 0 <= b < 512 implies child(s2, s0.len() as int, b) is None by {
        assert(entry(s2, s0.len() as int, b) == 0);
        lemma_child_none(s2, s0.len() as int, b);
    }
}

/// A link of the grown tree is the new link or a link of the old tree.
pub proof fn lemma_linked_links(
    s0: Seq<TableNode>,
    s2: Seq<TableNode>,
    p: int,
    a: int,
    pa: u64,
    i: int,
    b: int,
)
    requires
        tree_wf(s0),
        linked(s0, s2, p, a, pa),
        is_link(s2, i, b),
    ensures
        i < s0.len(),
        (i == p && b == a) || is_link(s0, i, b),
        s2[i].level == s0[i].level,
        (i == p && b == a) ==> child(s2, i, b) == Some(s0.len() as int),
        !(i == p && b == a) ==> child(s2, i, b) == child(s0, i, b) && child(s0, i, b) is Some
            && child(s0, i, b).unwrap() < s0.len() && entry(s2, i, b) == entry(s0, i, b),
{
    let n = s0.len() as int;
    if i == n {
        assert(entry(s2, n, b) == 0);
    } else {
        assert(s2[i].level == s0[i].level);
        lemma_linked_new(s0, s2, p, a, pa);
        if !(i == p && b == a) {
            assert(entry(s2, i, b) == entry(s0, i, b));
            lemma_linked_distinct(s0, s2, p, a, pa);
            lemma_same_child(s0, s2, p, a, i, b);
            lemma_child(s0, i, b);
        }
    }
}

/// Linking a new page keeps the tree well formed.
pub proof fn lemma_linked_wf(s0: Seq<TableNode>, s2: Seq<TableNode>, p: int, a: int, pa: u64)
    requires
        tree_wf(s0),
        linked(s0, s2, p, a, pa),
    ensures
        tree_wf(s2),
{
    let n = s0.len() as int;
    lemma_linked_distinct(s0, s2, p, a, pa);
    lemma_tree_pages(s0, p);
    assert(s2[0].level == s0[0].level);
    assert forall|i: int| 0 < i < s2.len() implies (#[trigger] s2[i]).level <= 1 by {
        if i < n {
            lemma_tree_pages(s0, i);
        }
    }
    assert forall|i: int| 0 <= i < s2.len() implies (#[trigger] s2[i]).pa % 4096 == 0 && s2[i].pa
        < MAXPA by {
        if i < n {
            lemma_tree_pages(s0, i);
        }
    }
    assert forall|i: int, b: int| #[trigger] is_link(s2, i, b) implies ({
        let e = entry(s2, i, b);
        &&& holds(s2, spec_pte2pa(e))
        &&& s2[index_of(s2, spec_pte2pa(e))].level + 1 == s2[i].level
        &&& spec_pte_flags(e) == PTE_V
    }) by {
        lemma_linked_links(s0, s2, p, a, pa, i, b);
        if i == p && b == a {
            lemma_index_of(s2, n);
        } else {
            lemma_child(s0, i, b);
            let c = child(s0, i, b).unwrap();
            assert(s2[c].pa == s0[c].pa);
            assert(s2[c].level == s0[c].level);
            lemma_index_of(s2, c);
        }
    }
    assert forall|i: int, b: int, k: int, d: int|
        #[trigger] is_link(s2, i, b) && #[trigger] is_link(s2, k, d) && spec_pte2pa(
            entry(s2, i, b),
        ) == spec_pte2pa(entry(s2, k, d)) implies i == k && b == d by {
        lemma_linked_links(s0, s2, p, a, pa, i, b);
        lemma_linked_links(s0, s2, p, a, pa, k, d);
        let new_i = i == p && b == a;
        let new_k = k == p && d == a;
        if new_i && new_k {
        } else if new_i {
            lemma_child(s0, k, d);
            assert(s0[child(s0, k, d).unwrap()].pa == pa);
            assert(holds(s0, pa));
        } else if new_k {
            lemma_child(s0, i, b);
            assert(s0[child(s0, i, b).unwrap()].pa == pa);
            assert(holds(s0, pa));
        } else {
            lemma_child(s0, i, b);
            lemma_child(s0, k, d);
            let c = child(s0, i, b).unwrap();
            let f = child(s0, k, d).unwrap();
            assert(s0[c].pa == s0[f].pa);
            if c < f {
                assert(s0[c].pa != s0[f].pa);
            } else if f < c {
                assert(s0[f].pa != s0[c].pa);
            }
        }
    }
    reveal(tree_wf);
}

/// Where the walk of `v` gets in a well-formed tree.
pub proof fn lemma_walk_shape(s: Seq<TableNode>, v: u64)
    requires
        tree_wf(s),
    ensures
        match child(s, 0, spec_px(2, v)) {
            None => leaf_table(s, v) is None && depth(s, v) == 0,
            Some(n1) => 0 < n1 < s.len() && s[n1].level == 1 && is_link(s, 0, spec_px(2, v))
                && leaf_table(s, v) == child(s, n1, spec_px(1, v)) && match child(
                s,
                n1,
                spec_px(1, v),
            ) {
                None => depth(s, v) == 1,
                Some(n0) => 0 < n0 < s.len() && s[n0].level == 0 && is_link(
                    s,
                    n1,
                    spec_px(1, v),
                ) && depth(s, v) == 2,
            },
        },
{
    lemma_tree_root(s);
    let a2 = spec_px(2, v);
    let a1 = spec_px(1, v);
    if child(s, 0, a2) is Some {
        lemma_child_some(s, 0, a2);
        assert(is_link(s, 0, a2));
        lemma_child(s, 0, a2);
        let n1 = child(s, 0, a2).unwrap();
        if child(s, n1, a1) is Some {
            lemma_child_some(s, n1, a1);
            assert(is_link(s, n1, a1));
            lemma_child(s, n1, a1);
        }
    }
}

/// Linking a new page changes no translation and keeps every leaf table
/// where it was.
pub proof fn lemma_linked_lookup(
    s0: Seq<TableNode>,
    s2: Seq<TableNode>,
    p: int,
    a: int,
    pa: u64,
    v: u64,
)
    requires
        tree_wf(s0),
        linked(s0, s2, p, a, pa),
    ensures
        lookup(s2, v) == lookup(s0, v),
        leaf_table(s0, v) is Some ==> leaf_table(s2, v) == leaf_table(s0, v),
        (p == 0 && a == spec_px(2, v)) || (child(s0, 0, spec_px(2, v)) == Some(p) && a == spec_px(
            1,
            v,
        )) ==> depth(s2, v) == depth(s0, v) + 1,
{
    let n = s0.len() as int;
    let a2 = spec_px(2, v);
    let a1 = spec_px(1, v);
    let a0 = spec_px(0, v);
    lemma_linked_new(s0, s2, p, a, pa);
    lemma_linked_distinct(s0, s2, p, a, pa);
    lemma_walk_shape(s0, v);
    lemma_tree_root(s0);
    reveal(lookup);
    if p == 0 && a == a2 {
        assert(child(s2, 0, a2) == Some(n));
        assert(child(s2, n, a1) is None);
    } else {
        lemma_same_child(s0, s2, p, a, 0, a2);
        match child(s0, 0, a2) {
            None => {},
            Some(n1) => {
                if n1 == p && a == a1 {
                    assert(child(s2, n1, a1) == Some(n));
                    assert(entry(s2, n, a0) == 0);
                } else {
                    lemma_same_child(s0, s2, p, a, n1, a1);
                    match child(s0, n1, a1) {
                        None => {},
                        Some(n0) => {
                            assert(entry(s2, n0, a0) == entry(s0, n0, a0));
                        },
                    }
                }
            },
        }
    }
}

/// A table that was linked in as the last one on the way to `va` is the
/// leaf table of `va`, and holds no entry.
pub proof fn lemma_linked_leaf(s0: Seq<TableNode>, s2: Seq<TableNode>, va: u64, pa: u64)
    requires
        tree_wf(s0),
        s0.len() < usize::MAX,
        va < MAXVA,
        depth(s0, va) == 1,
        linked(s0, s2, missing_link(s0, va).0, missing_link(s0, va).1, pa),
    ensures
        slot_of(s2, va) == Some(
            PteSlot { node: s0.len() as usize, index: spec_px(0, va) as usize },
        ),
        entry(s2, s0.len() as int, spec_px(0, va)) == 0,
{
    let p = missing_link(s0, va).0;
    let a = missing_link(s0, va).1;
    lemma_walk_shape(s0, va);
    lemma_tree_root(s0);
    lemma_linked_distinct(s0, s2, p, a, pa);
    lemma_linked_new(s0, s2, p, a, pa);
    lemma_same_child(s0, s2, p, a, 0, spec_px(2, va));
}

/// What an allocating walk builds where both tables on the way to `va`
/// are missing: two pages more; the root's entry for `va` holds the
/// address of the first with the valid bit, the first's entry for `va` holds the address of the second with
/// the valid bit and its other entries are zero, the second holds no
/// entry, and nothing else has changed.
pub proof fn law_walk_builds_both_tables(s0: Seq<TableNode>, s2: Seq<TableNode>, va: u64)
    requires
        tree_wf(s0),
        depth(s0, va) == 0,
        grown(s0, s2, va, 2),
    ensures
        s2.len() == s0.len() + 2,
        s2[s0.len() as int].level == 1,
        s2[s0.len() as int + 1].level == 0,
        entry(s2, 0, spec_px(2, va)) == spec_pa2pte(s2[s0.len() as int].pa) | PTE_V,
        entry(s2, s0.len() as int, spec_px(1, va)) == spec_pa2pte(s2[s0.len() as int + 1].pa)
            | PTE_V,
        forall|b: int|
            0 <= b < 512 && b != spec_px(1, va) ==> #[trigger] entry(s2, s0.len() as int, b) == 0,
        forall|b: int| 0 <= b < 512 ==> #[trigger] entry(s2, s0.len() as int + 1, b) == 0,
        forall|i: int, b: int|
            0 <= i < s0.len() && 0 <= b < 512 && !(i == 0 && b == spec_px(2, va))
                ==> #[trigger] entry(s2, i, b) == entry(s0, i, b),
{
    let a2 = spec_px(2, va);
    let a1 = spec_px(1, va);
    let n = s0.len() as int;
    let s1 = choose|s1: Seq<TableNode>| #[trigger]
        grown_by_one(s0, s1, va) && grown_by_one(s1, s2, va);
    assert(grown_by_one(s0, s1, va) && grown_by_one(s1, s2, va));
    lemma_walk_shape(s0, va);
    lemma_tree_root(s0);
    assert(missing_link(s0, va) == (0int, a2));
    let pa1 = choose|pa: u64| #[trigger] linked(s0, s1, 0, a2, pa);
    assert(linked(s0, s1, 0, a2, pa1));
    lemma_linked_new(s0, s1, 0, a2, pa1);
    assert(missing_link(s1, va) == (n, a1));
    let pa0 = choose|pa: u64| #[trigger] linked(s1, s2, n, a1, pa);
    assert(linked(s1, s2, n, a1, pa0));
    assert(entry(s2, 0, a2) == entry(s1, 0, a2));
    assert forall|b: int| 0 <= b < 512 && b != a1 implies #[trigger] entry(s2, n, b) == 0 by {
        assert(entry(s2, n, b) == entry(s1, n, b));
    }
    assert forall|i: int, b: int|
        0 <= i < s0.len() && 0 <= b < 512 && !(i == 0 && b == a2) implies #[trigger] entry(
        s2,
        i,
        b,
    ) == entry(s0, i, b) by {
        assert(entry(s2, i, b) == entry(s1, i, b));
    }
}

/// Writing a leaf entry keeps the tree well formed.
pub proof fn lemma_leaf_written_wf(s0: Seq<TableNode>, s2: Seq<TableNode>, n: int, a: int, e: u64)
    requires
        tree_wf(s0),
        leaf_written(s0, s2, n, a, e),
    ensures
        tree_wf(s2),
{
    lemma_written_distinct(s0, s2, n, a, e);
    lemma_tree_root(s0);
    assert(s2[0].level == s0[0].level);
    assert forall|i: int| 0 < i < s2.len() implies (#[trigger] s2[i]).level <= 1 by {
        lemma_tree_pages(s0, i);
    }
    assert forall|i: int| 0 <= i < s2.len() implies (#[trigger] s2[i]).pa % 4096 == 0 && s2[i].pa
        < MAXPA by {
        lemma_tree_pages(s0, i);
    }
    assert forall|i: int, b: int| #[trigger] is_link(s2, i, b) implies ({
        let x = entry(s2, i, b);
        &&& holds(s2, spec_pte2pa(x))
        &&& s2[index_of(s2, spec_pte2pa(x))].level + 1 == s2[i].level
        &&& spec_pte_flags(x) == PTE_V
    }) by {
        assert(s2[i].level == s0[i].level);
        assert(entry(s2, i, b) == entry(s0, i, b));
        assert(is_link(s0, i, b));
        lemma_child(s0, i, b);
        let c = child(s0, i, b).unwrap();
        assert(s2[c].pa == s0[c].pa);
        assert(s2[c].level == s0[c].level);
        lemma_index_of(s2, c);
    }
    assert forall|i: int, b: int, k: int, d: int|
        #[trigger] is_link(s2, i, b) && #[trigger] is_link(s2, k, d) && spec_pte2pa(
            entry(s2, i, b),
        ) == spec_pte2pa(entry(s2, k, d)) implies i == k && b == d by {
        assert(s2[i].level == s0[i].level);
        assert(s2[k].level == s0[k].level);
        assert(entry(s2, i, b) == entry(s0, i, b));
        assert(entry(s2, k, d) == entry(s0, k, d));
        assert(is_link(s0, i, b) && is_link(s0, k, d));
        lemma_child(s0, i, b);
        lemma_child(s0, k, d);
        let c = child(s0, i, b).unwrap();
        let f = child(s0, k, d).unwrap();
        assert(s0[c].pa == s0[f].pa);
        if c < f {
            assert(s0[c].pa != s0[f].pa);
        } else if f < c {
            assert(s0[f].pa != s0[c].pa);
        }
    }
    reveal(tree_wf);
}

/// Two addresses whose walks end in the same leaf table select the same
/// entries at the two upper levels.
pub proof fn lemma_leaf_table_injective(s: Seq<TableNode>, x: u64, y: u64)
    requires
        tree_wf(s),
        leaf_table(s, x) is Some,
        leaf_table(s, x) == leaf_table(s, y),
    ensures
        spec_px(2, x) == spec_px(2, y),
        spec_px(1, x) == spec_px(1, y),
{
    lemma_walk_shape(s, x);
    lemma_walk_shape(s, y);
    let nx = child(s, 0, spec_px(2, x)).unwrap();
    let ny = child(s, 0, spec_px(2, y)).unwrap();
    lemma_child(s, nx, spec_px(1, x));
    lemma_child(s, 0, spec_px(2, x));
}

/// Writing a leaf entry moves no leaf table.
pub proof fn lemma_leaf_written_tables(
    s0: Seq<TableNode>,
    s2: Seq<TableNode>,
    n: int,
    a: int,
    e: u64,
    v: u64,
)
    requires
        tree_wf(s0),
        leaf_written(s0, s2, n, a, e),
    ensures
        leaf_table(s2, v) == leaf_table(s0, v),
{
    lemma_written_distinct(s0, s2, n, a, e);
    lemma_walk_shape(s0, v);
    lemma_tree_root(s0);
    lemma_same_child(s0, s2, n, a, 0, spec_px(2, v));
    match child(s0, 0, spec_px(2, v)) {
        None => {},
        Some(n1) => {
            lemma_same_child(s0, s2, n, a, n1, spec_px(1, v));
        },
    }
}

/// Writing the leaf entry of `va` changes the translation of the page of
/// `va` and of no other page.
pub proof fn lemma_leaf_written_lookup(
    s0: Seq<TableNode>,
    s2: Seq<TableNode>,
    n: int,
    a: int,
    e: u64,
    va: u64,
    v: u64,
)
    requires
        tree_wf(s0),
        leaf_written(s0, s2, n, a, e),
        va < MAXVA,
        leaf_table(s0, va) == Some(n),
        spec_px(0, va) == a,
    ensures
        leaf_table(s2, v) == leaf_table(s0, v),
        v < MAXVA && same_page(v, va) ==> lookup(s2, v) == (if spec_pte_valid(e) {
            Some(e)
        } else {
            None
        }),
        !same_page(v, va) ==> lookup(s2, v) == lookup(s0, v),
{
    lemma_leaf_written_tables(s0, s2, n, a, e, v);
    lemma_leaf_written_tables(s0, s2, n, a, e, va);
    lemma_walk_shape(s0, v);
    reveal(lookup);
    if v < MAXVA {
        lemma_same_page(v, va);
        match leaf_table(s0, v) {
            None => {},
            Some(n0) => {
                let v0 = spec_px(0, v);
                if n0 == n {
                    lemma_leaf_table_injective(s0, v, va);
                }
                if !(n0 == n && v0 == a) {
                    assert(entry(s2, n0, v0) == entry(s0, n0, v0));
                }
            },
        }
    }
}

/// The physical address `off` bytes after `pa`, wrapping at 2^64.
pub open spec fn phys_add(pa: u64, off: u64) -> u64 {
    if pa + off > u64::MAX {
        (pa + off - 0x1_0000_0000_0000_0000) as u64
    } else {
        (pa + off) as u64
    }
}

/// The leaf entry that maps a page to the physical page at `pa` with the
/// permission bits `perm`.
pub open spec fn leaf_pte(pa: u64, perm: u64) -> u64 {
    spec_pa2pte(pa) | perm | PTE_V
}

/// Whether `v` lies in one of the pages that the range of `sz` bytes from
/// `va` touches.
pub open spec fn in_range(va: u64, sz: u64, v: u64) -> bool {
    spec_pg_round_down(va) <= v && v / 4096 <= (va + sz - 1) / 4096
}

/// The distance from the start of the first page of a range to the start of
/// the page of `v`.
pub open spec fn range_offset(va: u64, v: u64) -> u64 {
    (spec_pg_round_down(v) - spec_pg_round_down(va)) as u64
}

/// A range that `mappages` accepts: not empty, and below `MAXVA`.
pub open spec fn range_ok(va: u64, sz: u64) -> bool {
    sz > 0 && va + sz - 1 < MAXVA
}

/// The leaf entry that the walk for `va` ends at, valid or not.
pub open spec fn slot_of(nodes: Seq<TableNode>, va: u64) -> Option<PteSlot> {
    if va >= MAXVA {
        None
    } else {
        match leaf_table(nodes, va) {
            None => None,
            Some(n0) => Some(PteSlot { node: n0 as usize, index: spec_px(0, va) as usize }),
        }
    }
}

/// Where the work of `mappages` stands when the pages from `first` up to
/// `cur` have been done: they were not mapped in `before` and are mapped as
/// asked in `now`, every other translation is as it was, and every leaf
/// table is where it was.
pub open spec fn mapped_upto(
    before: Seq<TableNode>,
    now: Seq<TableNode>,
    va: u64,
    pa: u64,
    perm: u64,
    first: u64,
    cur: int,
) -> bool {
    &&& forall|v: u64|
        first <= v < cur ==> lookup(before, v) is None && #[trigger] lookup(now, v) == Some(
            leaf_pte(phys_add(pa, range_offset(va, v)), perm),
        )
    &&& forall|v: u64| !(first <= v < cur) ==> #[trigger] lookup(now, v) == lookup(before, v)
    &&& forall|v: u64| #[trigger]
        slot_of(before, v) is Some ==> slot_of(now, v) == slot_of(before, v)
}

/// What the walk's end says about the translation: the address is mapped
/// exactly if its leaf entry exists and is valid.
pub proof fn lemma_slot_lookup(nodes: Seq<TableNode>, va: u64)
    requires
        tree_wf(nodes),
        nodes.len() <= usize::MAX,
    ensures
        match slot_of(nodes, va) {
            Some(s) => va < MAXVA && leaf_table(nodes, va) == Some(s.node as int) && s.node
                < nodes.len() && nodes[s.node as int].level == 0 && s.index == spec_px(0, va)
                && lookup(nodes, va) == (if spec_pte_valid(
                entry(nodes, s.node as int, s.index as int),
            ) {
                Some(entry(nodes, s.node as int, s.index as int))
            } else {
                None
            }),
            None => lookup(nodes, va) is None,
        },
{
    reveal(lookup);
    lemma_walk_shape(nodes, va);
}

/// Growing the tree for a walk keeps the work of `mappages` where it stands.
pub proof fn lemma_map_walked(
    before: Seq<TableNode>,
    start: Seq<TableNode>,
    walked: Seq<TableNode>,
    va: u64,
    pa: u64,
    perm: u64,
    first: u64,
    cur: int,
)
    requires
        mapped_upto(before, start, va, pa, perm, first, cur),
        forall|v: u64| #[trigger] lookup(walked, v) == lookup(start, v),
        forall|v: u64| #[trigger]
            slot_of(start, v) is Some ==> slot_of(walked, v) == slot_of(start, v),
    ensures
        mapped_upto(before, walked, va, pa, perm, first, cur),
{
    assert forall|v: u64| first <= v < cur implies lookup(before, v) is None && #[trigger] lookup(
        walked,
        v,
    ) == Some(leaf_pte(phys_add(pa, range_offset(va, v)), perm)) by {
        assert(lookup(walked, v) == lookup(start, v));
    }
    assert forall|v: u64| !(first <= v < cur) implies #[trigger] lookup(walked, v) == lookup(
        before,
        v,
    ) by {
        assert(lookup(walked, v) == lookup(start, v));
    }
    assert forall|v: u64| #[trigger] slot_of(before, v) is Some implies slot_of(walked, v)
        == slot_of(before, v) by {
        assert(slot_of(start, v) == slot_of(before, v));
    }
}

/// Writing the leaf entry of the page at `cur` moves the work of `mappages`
/// one page on.
pub proof fn lemma_map_step(
    before: Seq<TableNode>,
    walked: Seq<TableNode>,
    now: Seq<TableNode>,
    va: u64,
    pa: u64,
    perm: u64,
    first: u64,
    cur: u64,
    slot: PteSlot,
    e: u64,
)
    requires
        tree_wf(walked),
        walked.len() <= usize::MAX,
        mapped_upto(before, walked, va, pa, perm, first, cur as int),
        first == spec_pg_round_down(va),
        first <= cur,
        cur < MAXVA,
        cur % 4096 == 0,
        slot_of(walked, cur) == Some(slot),
        !spec_pte_valid(entry(walked, slot.node as int, slot.index as int)),
        leaf_written(walked, now, slot.node as int, slot.index as int, e),
        e == leaf_pte(phys_add(pa, (cur - first) as u64), perm),
    ensures
        lookup(before, cur) is None,
        mapped_upto(before, now, va, pa, perm, first, cur + 4096),
{
    let n = slot.node as int;
    let a = slot.index as int;
    lemma_slot_lookup(walked, cur);
    lemma_leaf_pte_valid(spec_pa2pte(phys_add(pa, (cur - first) as u64)), perm);
    assert(lookup(walked, cur) is None);
    assert(lookup(before, cur) is None);
    assert forall|v: u64| first <= v < cur + 4096 implies lookup(before, v) is None
        && #[trigger] lookup(now, v) == Some(leaf_pte(phys_add(pa, range_offset(va, v)), perm)) by {
        lemma_leaf_written_lookup(walked, now, n, a, e, cur, v);
        if v >= cur {
            assert(same_page(v, cur));
            assert(spec_pg_round_down(v) == cur);
            assert(v < MAXVA);
            lemma_leaf_written_lookup(walked, now, n, a, e, cur, cur);
            assert(lookup(walked, v) == lookup(walked, cur)) by {
                lemma_same_page(v, cur);
                lemma_leaf_table_same_page(walked, v, cur);
                reveal(lookup);
            }
            assert(lookup(walked, v) == lookup(before, v));
        } else {
            assert(!same_page(v, cur));
            assert(lookup(walked, v) == Some(leaf_pte(phys_add(pa, range_offset(va, v)), perm)));
        }
    }
    assert forall|v: u64| !(first <= v < cur + 4096) implies #[trigger] lookup(now, v) == lookup(
        before,
        v,
    ) by {
        lemma_leaf_written_lookup(walked, now, n, a, e, cur, v);
        assert(!same_page(v, cur));
        assert(lookup(walked, v) == lookup(before, v));
    }
    assert forall|v: u64| #[trigger] slot_of(before, v) is Some implies slot_of(now, v) == slot_of(
        before,
        v,
    ) by {
        lemma_leaf_written_lookup(walked, now, n, a, e, cur, v);
        assert(slot_of(walked, v) == slot_of(before, v));
    }
}

/// Addresses of one page are walked the same way.
pub proof fn lemma_leaf_table_same_page(s: Seq<TableNode>, x: u64, y: u64)
    requires
        x < MAXVA,
        y < MAXVA,
        same_page(x, y),
    ensures
        leaf_table(s, x) == leaf_table(s, y),
        spec_px(0, x) == spec_px(0, y),
{
    lemma_same_page(x, y);
}

} // verus!

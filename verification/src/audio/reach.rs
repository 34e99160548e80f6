use vstd::prelude::*;

verus! {

/// The edges of a directed graph by edge index: for each index the edge's
/// source and target, or nothing where the index is not in use.
pub type Links = Seq<Option<(nat, nat)>>;

/// Some edge leads from `a` to `b`.
pub open spec fn has_link(links: Links, a: nat, b: nat) -> bool {
    exists|i: int| 0 <= i < links.len() && #[trigger] links[i] == Some((a, b))
}

/// `b` can be reached from `a` by following exactly `steps` edges.
pub open spec fn reaches_in(links: Links, a: nat, b: nat, steps: nat) -> bool
    decreases steps,
{
    if steps == 0 {
        a == b
    } else {
        exists|m: nat| reaches_in(links, a, m, (steps - 1) as nat) && #[trigger] has_link(links, m, b)
    }
}

/// `b` can be reached from `a` by following edges; every vertex reaches itself.
pub open spec fn reaches(links: Links, a: nat, b: nat) -> bool {
    exists|steps: nat| reaches_in(links, a, b, steps)
}

/// No edge leads to a vertex from which its own source can be reached: the
/// graph has no cycle, and no edge from a vertex to itself.
pub open spec fn acyclic(links: Links) -> bool {
    forall|i: int|
        0 <= i < links.len() && (#[trigger] links[i]) is Some ==> !reaches(
            links,
            links[i]->Some_0.1,
            links[i]->Some_0.0,
        )
}

/// Every vertex reaches itself.
pub proof fn lemma_reaches_self(links: Links, a: nat)
    ensures
        reaches(links, a, a),
{
    assert(reaches_in(links, a, a, 0));
}

/// What reaches the source of an edge reaches its target.
pub proof fn lemma_reaches_step(links: Links, a: nat, m: nat, b: nat)
    requires
        reaches(links, a, m),
        has_link(links, m, b),
    ensures
        reaches(links, a, b),
{
    let steps = choose|steps: nat| reaches_in(links, a, m, steps);
    assert(reaches_in(links, a, b, steps + 1)) by {
        assert(reaches_in(links, a, m, ((steps + 1) - 1) as nat));
    }
}

proof fn lemma_reaches_in_chain(links: Links, a: nat, m: nat, b: nat, first: nat, second: nat)
    requires
        reaches_in(links, a, m, first),
        reaches_in(links, m, b, second),
    ensures
        reaches(links, a, b),
    decreases second,
{
    if second == 0 {
        assert(reaches_in(links, a, b, first));
    } else {
        let k = choose|k: nat|
            reaches_in(links, m, k, (second - 1) as nat) && #[trigger] has_link(links, k, b);
        lemma_reaches_in_chain(links, a, m, k, first, (second - 1) as nat);
        lemma_reaches_step(links, a, k, b);
    }
}

/// Reaching goes on: what reaches `m` reaches all that `m` reaches.
pub proof fn lemma_reaches_chain(links: Links, a: nat, m: nat, b: nat)
    requires
        reaches(links, a, m),
        reaches(links, m, b),
    ensures
        reaches(links, a, b),
{
    let first = choose|steps: nat| reaches_in(links, a, m, steps);
    let second = choose|steps: nat| reaches_in(links, m, b, steps);
    lemma_reaches_in_chain(links, a, m, b, first, second);
}

proof fn lemma_new_link_in(links: Links, from: nat, to: nat, x: nat, y: nat, steps: nat)
    requires
        !reaches(links, to, from),
        reaches_in(links.push(Some((from, to))), x, y, steps),
    ensures
        reaches(links, x, y) || (reaches(links, x, from) && reaches(links, to, y)),
    decreases steps,
{
    let grown = links.push(Some((from, to)));
    if steps == 0 {
        lemma_reaches_self(links, x);
    } else {
        let m = choose|m: nat|
            reaches_in(grown, x, m, (steps - 1) as nat) && #[trigger] has_link(grown, m, y);
        lemma_new_link_in(links, from, to, x, m, (steps - 1) as nat);
        let i = choose|i: int| 0 <= i < grown.len() && #[trigger] grown[i] == Some((m, y));
        if i < links.len() {
            assert(links[i] == Some((m, y)));
            assert(has_link(links, m, y));
            if reaches(links, x, m) {
                lemma_reaches_step(links, x, m, y);
            } else {
                lemma_reaches_step(links, to, m, y);
            }
        } else {
            assert(m == from && y == to);
            lemma_reaches_self(links, to);
        }
    }
}

/// With one more edge, from `from` to `to`, where `to` did not reach `from`:
/// whatever reaches `y` now either reached it before, or reached `from` while
/// `to` reached `y`.
pub proof fn lemma_new_link(links: Links, from: nat, to: nat, x: nat, y: nat)
    requires
        !reaches(links, to, from),
        reaches(links.push(Some((from, to))), x, y),
    ensures
        reaches(links, x, y) || (reaches(links, x, from) && reaches(links, to, y)),
{
    let steps = choose|steps: nat| reaches_in(links.push(Some((from, to))), x, y, steps);
    lemma_new_link_in(links, from, to, x, y, steps);
}

/// A graph without a cycle stays without one when it gains an edge whose
/// target did not reach its source.
pub proof fn lemma_acyclic_push(links: Links, from: nat, to: nat)
    requires
        acyclic(links),
        !reaches(links, to, from),
    ensures
        acyclic(links.push(Some((from, to)))),
{
    let grown = links.push(Some((from, to)));
    assert forall|i: int| 0 <= i < grown.len() && (#[trigger] grown[i]) is Some implies !reaches(
        grown,
        grown[i]->Some_0.1,
        grown[i]->Some_0.0,
    ) by {
        let u = grown[i]->Some_0.0;
        let v = grown[i]->Some_0.1;
        if reaches(grown, v, u) {
            lemma_new_link(links, from, to, v, u);
            if i < links.len() {
                assert(links[i] == Some((u, v)));
                assert(has_link(links, u, v));
                if reaches(links, v, u) {
                } else {
                    lemma_reaches_step(links, to, u, v);
                    lemma_reaches_chain(links, to, v, from);
                }
            } else {
                if reaches(links, v, u) {
                } else {
                    lemma_reaches_chain(links, to, u, from);
                }
            }
        }
    }
}

proof fn lemma_reaches_in_grows(links: Links, more: Option<(nat, nat)>, a: nat, b: nat, steps: nat)
    requires
        reaches_in(links, a, b, steps),
    ensures
        reaches_in(links.push(more), a, b, steps),
    decreases steps,
{
    if steps > 0 {
        let m = choose|m: nat|
            reaches_in(links, a, m, (steps - 1) as nat) && #[trigger] has_link(links, m, b);
        lemma_reaches_in_grows(links, more, a, m, (steps - 1) as nat);
        let i = choose|i: int| 0 <= i < links.len() && #[trigger] links[i] == Some((m, b));
        assert(links.push(more)[i] == Some((m, b)));
        assert(has_link(links.push(more), m, b));
    }
}

/// What was reached is still reached when the graph gains an edge.
pub proof fn lemma_reaches_grows(links: Links, more: Option<(nat, nat)>, a: nat, b: nat)
    requires
        reaches(links, a, b),
    ensures
        reaches(links.push(more), a, b),
{
    let steps = choose|steps: nat| reaches_in(links, a, b, steps);
    lemma_reaches_in_grows(links, more, a, b, steps);
}

/// Every edge joins two of the first `bound` vertices.
pub open spec fn links_within(links: Links, bound: nat) -> bool {
    forall|i: int|
        0 <= i < links.len() && (#[trigger] links[i]) is Some ==> links[i]->Some_0.0 < bound
            && links[i]->Some_0.1 < bound
}

proof fn lemma_reaches_in_within(links: Links, bound: nat, a: nat, b: nat, steps: nat)
    requires
        links_within(links, bound),
        a < bound,
        reaches_in(links, a, b, steps),
    ensures
        b < bound,
    decreases steps,
{
    if steps > 0 {
        let m = choose|m: nat|
            reaches_in(links, a, m, (steps - 1) as nat) && #[trigger] has_link(links, m, b);
        let i = choose|i: int| 0 <= i < links.len() && #[trigger] links[i] == Some((m, b));
        assert(links[i] is Some);
    }
}

/// Where every edge joins two of the first `bound` vertices, one of them
/// reaches no vertex but those.
pub proof fn lemma_reaches_within(links: Links, bound: nat, a: nat, b: nat)
    requires
        links_within(links, bound),
        a < bound,
        reaches(links, a, b),
    ensures
        b < bound,
{
    let steps = choose|steps: nat| reaches_in(links, a, b, steps);
    lemma_reaches_in_within(links, bound, a, b, steps);
}

/// In a graph without a cycle, the source of an edge cannot be reached from
/// its target.
pub proof fn lemma_acyclic_link(links: Links, a: nat, b: nat)
    requires
        acyclic(links),
        has_link(links, a, b),
    ensures
        !reaches(links, b, a),
        a != b,
{
    let i = choose|i: int| 0 <= i < links.len() && #[trigger] links[i] == Some((a, b));
    assert(links[i] is Some);
    if a == b {
        lemma_reaches_self(links, a);
    }
}

} // verus!

//! How the graph lays its entries out in statements, and what its queries then
//! find.
//!
//! An entry is a node with attributes and an ordered list of children, each a
//! node with attributes of its own. Entries are numbered by their order, and
//! the nodes of an entry by the entry's order and their place in it.

use vstd::prelude::*;

use crate::query::{
    binds, binds_optional, child_rank, is_child, is_solution, lists, not_after, order_iri, says,
    ChildSolution, Shape, Solution,
};
use crate::rdf::{ObjectView, Triple};

verus! {

/// How many nodes an entry may have.
pub const NODES_PER_ENTRY: u128 = 0x2_0000_0000_0000_0000;

/// The number of node `place` of entry `order`: 0 is the entry's own node, and
/// `j + 1` that of its child `j`.
pub open spec fn node_id(order: int, place: int) -> int {
    order * NODES_PER_ENTRY + place
}

/// An entry of the graph.
pub struct Entry {
    pub attrs: Map<Seq<char>, ObjectView>,
    pub link: Seq<char>,
    pub children: Seq<Map<Seq<char>, ObjectView>>,
}

/// Whether a statement is one on the entry's own node.
pub open spec fn own_states(order: int, e: Entry, t: Triple) -> bool {
    &&& t.subject == node_id(order, 0)
    &&& e.attrs.contains_pair(t.predicate, t.object) || (t.predicate == e.link && exists|j: int|
        0 <= j < e.children.len() && t.object == ObjectView::Blank(#[trigger] node_id(order, j + 1)))
}

/// Whether a statement is one on the entry's child `j`.
pub open spec fn child_states(order: int, e: Entry, j: int, t: Triple) -> bool {
    &&& 0 <= j < e.children.len()
    &&& t.subject == node_id(order, j + 1)
    &&& e.children[j].contains_pair(t.predicate, t.object)
}

/// Whether a statement belongs to an entry.
pub open spec fn states(order: int, e: Entry, t: Triple) -> bool {
    own_states(order, e, t) || exists|j: int| #[trigger] child_states(order, e, j, t)
}

/// Whether `g` holds the statements of the entries and no others.
pub open spec fn lays_out(g: Set<Triple>, entries: Map<int, Entry>) -> bool {
    forall|t: Triple| #[trigger]
        g.contains(t) <==> exists|o: int| #[trigger]
            entries.contains_key(o) && states(o, entries[o], t)
}

/// Whether the entries can be told apart by the numbers of their nodes.
pub open spec fn numbered(entries: Map<int, Entry>) -> bool {
    forall|o: int| #[trigger]
        entries.contains_key(o) ==> 0 <= o && entries[o].children.len() + 1 < NODES_PER_ENTRY
}

/// A node's number tells its entry and its place there.
pub proof fn lemma_node_id(o1: int, p1: int, o2: int, p2: int)
    requires
        0 <= p1 < NODES_PER_ENTRY,
        0 <= p2 < NODES_PER_ENTRY,
        node_id(o1, p1) == node_id(o2, p2),
    ensures
        o1 == o2,
        p1 == p2,
{
    assert(o1 == o2) by (nonlinear_arith)
        requires
            0 <= p1 < 0x2_0000_0000_0000_0000,
            0 <= p2 < 0x2_0000_0000_0000_0000,
            o1 * 0x2_0000_0000_0000_0000 + p1 == o2 * 0x2_0000_0000_0000_0000 + p2,
    ;
}

/// What the graph states of an entry's own node.
pub proof fn lemma_own_statements(
    g: Set<Triple>,
    entries: Map<int, Entry>,
    o: int,
    p: Seq<char>,
    v: ObjectView,
)
    requires
        lays_out(g, entries),
        numbered(entries),
        entries.contains_key(o),
    ensures
        says(g, node_id(o, 0), p, v) <==> own_states(
            o,
            entries[o],
            Triple { subject: node_id(o, 0), predicate: p, object: v },
        ),
{
    let t = Triple { subject: node_id(o, 0), predicate: p, object: v };
    if g.contains(t) {
        let o2 = choose|o2: int| #[trigger]
            entries.contains_key(o2) && states(o2, entries[o2], t);
        if own_states(o2, entries[o2], t) {
            lemma_node_id(o, 0, o2, 0);
        } else {
            let j = choose|j: int| #[trigger] child_states(o2, entries[o2], j, t);
            lemma_node_id(o, 0, o2, j + 1);
        }
    }
    if own_states(o, entries[o], t) {
        assert(entries.contains_key(o) && states(o, entries[o], t));
    }
}

/// What the graph states of an entry's child.
pub proof fn lemma_child_statements(
    g: Set<Triple>,
    entries: Map<int, Entry>,
    o: int,
    j: int,
    p: Seq<char>,
    v: ObjectView,
)
    requires
        lays_out(g, entries),
        numbered(entries),
        entries.contains_key(o),
        0 <= j < entries[o].children.len(),
    ensures
        says(g, node_id(o, j + 1), p, v) <==> entries[o].children[j].contains_pair(p, v),
{
    let t = Triple { subject: node_id(o, j + 1), predicate: p, object: v };
    if g.contains(t) {
        let o2 = choose|o2: int| #[trigger]
            entries.contains_key(o2) && states(o2, entries[o2], t);
        if own_states(o2, entries[o2], t) {
            lemma_node_id(o, j + 1, o2, 0);
        } else {
            let j2 = choose|j2: int| #[trigger] child_states(o2, entries[o2], j2, t);
            lemma_node_id(o, j + 1, o2, j2 + 1);
        }
    }
    if entries[o].children[j].contains_pair(p, v) {
        assert(child_states(o, entries[o], j, t));
        assert(entries.contains_key(o) && states(o, entries[o], t));
    }
}

/// Whether an entry is one that the shape asks for.
pub open spec fn fits(shape: Shape, o: int, e: Entry) -> bool {
    &&& e.link == shape.link
    &&& !e.attrs.contains_key(shape.link)
    &&& e.attrs.contains_pair(order_iri(), ObjectView::Integer(o))
    &&& order_iri() != shape.link
    &&& forall|i: int|
        0 <= i < shape.required.len() ==> e.attrs.contains_key(#[trigger] shape.required[i])
            && shape.required[i] != shape.link
    &&& forall|i: int|
        0 <= i < shape.optional.len() ==> #[trigger] shape.optional[i] != shape.link
    &&& forall|j: int|
        0 <= j < e.children.len() ==> child_fits(shape, j, #[trigger] e.children[j])
}

/// Whether a child is one that the shape asks for.
pub open spec fn child_fits(shape: Shape, j: int, c: Map<Seq<char>, ObjectView>) -> bool {
    &&& c.contains_pair(order_iri(), ObjectView::Integer(j))
    &&& forall|i: int|
        0 <= i < shape.child_required.len() ==> c.contains_key(#[trigger] shape.child_required[i])
}

/// Whether nothing in an entry is what the shape asks for.
pub open spec fn is_foreign(shape: Shape, e: Entry) -> bool {
    &&& !e.attrs.contains_key(shape.required[0])
    &&& e.link != shape.required[0]
}

/// Whether no child in an entry can be taken for an entry of the shape.
pub open spec fn children_apart(shape: Shape, e: Entry) -> bool {
    forall|j: int|
        0 <= j < e.children.len() ==> !(#[trigger] e.children[j]).contains_key(shape.required[0])
}

/// Whether `nodes` lists, in order, exactly the entries that the shape asks for.
pub open spec fn sorted_out(shape: Shape, entries: Map<int, Entry>, nodes: Seq<int>) -> bool {
    &&& shape.required.len() > 0
    &&& forall|i: int, j: int| 0 <= i < j < nodes.len() ==> nodes[i] < nodes[j]
    &&& forall|i: int|
        0 <= i < nodes.len() ==> entries.contains_key(#[trigger] nodes[i]) && fits(
            shape,
            nodes[i],
            entries[nodes[i]],
        )
    &&& forall|o: int| #[trigger]
        entries.contains_key(o) ==> children_apart(shape, entries[o]) && (nodes.contains(o)
            || is_foreign(shape, entries[o]))
}

/// The values of required predicates.
pub open spec fn values_of(
    attrs: Map<Seq<char>, ObjectView>,
    predicates: Seq<Seq<char>>,
) -> Seq<ObjectView> {
    predicates.map_values(|p: Seq<char>| attrs[p])
}

/// The values of optional predicates.
pub open spec fn options_of(
    attrs: Map<Seq<char>, ObjectView>,
    predicates: Seq<Seq<char>>,
) -> Seq<Option<ObjectView>> {
    predicates.map_values(
        |p: Seq<char>|
            if attrs.contains_key(p) {
                Some(attrs[p])
            } else {
                None
            },
    )
}

/// The solution for an entry's child `j`.
pub open spec fn child_solution(shape: Shape, o: int, e: Entry, j: int) -> ChildSolution {
    ChildSolution {
        node: node_id(o, j + 1),
        order: j,
        required: values_of(e.children[j], shape.child_required),
        optional: options_of(e.children[j], shape.child_optional),
    }
}

/// The solution for an entry with the given child.
pub open spec fn solution(shape: Shape, o: int, e: Entry, child: Option<ChildSolution>) -> Solution {
    Solution {
        node: node_id(o, 0),
        order: o,
        required: values_of(e.attrs, shape.required),
        optional: options_of(e.attrs, shape.optional),
        child,
    }
}

/// The solutions for an entry: one per child, or one without a child.
pub open spec fn run(shape: Shape, o: int, e: Entry) -> Seq<Solution> {
    if e.children.len() == 0 {
        seq![solution(shape, o, e, None)]
    } else {
        Seq::new(
            e.children.len(),
            |j: int| solution(shape, o, e, Some(child_solution(shape, o, e, j))),
        )
    }
}

/// The solutions for a list of entries, one entry after the other.
pub open spec fn runs(shape: Shape, entries: Map<int, Entry>, nodes: Seq<int>) -> Seq<Solution>
    decreases nodes.len(),
{
    if nodes.len() == 0 {
        Seq::empty()
    } else {
        runs(shape, entries, nodes.drop_last()) + run(shape, nodes.last(), entries[nodes.last()])
    }
}

/// Every solution in the run of an entry is one of the query.
proof fn lemma_run_solves(
    g: Set<Triple>,
    entries: Map<int, Entry>,
    shape: Shape,
    nodes: Seq<int>,
    o: int,
    k: int,
)
    requires
        lays_out(g, entries),
        numbered(entries),
        sorted_out(shape, entries, nodes),
        nodes.contains(o),
        0 <= k < run(shape, o, entries[o]).len(),
    ensures
        is_solution(g, shape, run(shape, o, entries[o])[k]),
{
    let e = entries[o];
    let s = run(shape, o, e)[k];
    let at = choose|i: int| 0 <= i < nodes.len() && nodes[i] == o;
    assert(entries.contains_key(nodes[at]) && fits(shape, o, e));
    lemma_own_statements(g, entries, o, order_iri(), ObjectView::Integer(o));
    assert(binds(g, s.node, shape.required, s.required)) by {
        assert forall|i: int| 0 <= i < shape.required.len() implies #[trigger] says(
            g,
            s.node,
            shape.required[i],
            s.required[i],
        ) by {
            lemma_own_statements(g, entries, o, shape.required[i], s.required[i]);
        }
    }
    assert(binds_optional(g, s.node, shape.optional, s.optional)) by {
        assert forall|i: int| 0 <= i < shape.optional.len() implies (match #[trigger] s.optional[i] {
            Some(value) => says(g, s.node, shape.optional[i], value),
            None => forall|v: ObjectView| !says(g, s.node, shape.optional[i], v),
        }) by {
            let p = shape.optional[i];
            if e.attrs.contains_key(p) {
                lemma_own_statements(g, entries, o, p, e.attrs[p]);
            } else {
                assert forall|v: ObjectView| !says(g, s.node, p, v) by {
                    lemma_own_statements(g, entries, o, p, v);
                }
            }
        }
    }
    if e.children.len() == 0 {
        assert forall|c: ChildSolution| !is_child(g, shape, s.node, c) by {
            lemma_own_statements(g, entries, o, shape.link, ObjectView::Blank(c.node));
        }
    } else {
        lemma_child_solves(g, entries, shape, o, k);
        assert(s.child == Some(child_solution(shape, o, e, k)));
    }
}

/// Each child of an entry is a child of a solution.
proof fn lemma_child_solves(
    g: Set<Triple>,
    entries: Map<int, Entry>,
    shape: Shape,
    o: int,
    j: int,
)
    requires
        lays_out(g, entries),
        numbered(entries),
        entries.contains_key(o),
        fits(shape, o, entries[o]),
        0 <= j < entries[o].children.len(),
    ensures
        is_child(g, shape, node_id(o, 0), child_solution(shape, o, entries[o], j)),
{
    let e = entries[o];
    let c = child_solution(shape, o, e, j);
    assert(child_fits(shape, j, e.children[j]));
    lemma_own_statements(g, entries, o, shape.link, ObjectView::Blank(c.node));
    assert(own_states(
        o,
        e,
        Triple {
            subject: node_id(o, 0),
            predicate: shape.link,
            object: ObjectView::Blank(node_id(o, j + 1)),
        },
    ));
    lemma_child_statements(g, entries, o, j, order_iri(), ObjectView::Integer(j));
    assert(binds(g, c.node, shape.child_required, c.required)) by {
        assert forall|i: int| 0 <= i < shape.child_required.len() implies #[trigger] says(
            g,
            c.node,
            shape.child_required[i],
            c.required[i],
        ) by {
            lemma_child_statements(g, entries, o, j, shape.child_required[i], c.required[i]);
        }
    }
    assert(binds_optional(g, c.node, shape.child_optional, c.optional)) by {
        assert forall|i: int| 0 <= i < shape.child_optional.len() implies (
        match #[trigger] c.optional[i] {
            Some(value) => says(g, c.node, shape.child_optional[i], value),
            None => forall|v: ObjectView| !says(g, c.node, shape.child_optional[i], v),
        }) by {
            let p = shape.child_optional[i];
            if e.children[j].contains_key(p) {
                lemma_child_statements(g, entries, o, j, p, e.children[j][p]);
            } else {
                assert forall|v: ObjectView| !says(g, c.node, p, v) by {
                    lemma_child_statements(g, entries, o, j, p, v);
                }
            }
        }
    }
}

/// A solution is one for an entry that the shape asks for.
proof fn lemma_solution_node(
    g: Set<Triple>,
    entries: Map<int, Entry>,
    shape: Shape,
    nodes: Seq<int>,
    s: Solution,
) -> (o: int)
    requires
        lays_out(g, entries),
        numbered(entries),
        sorted_out(shape, entries, nodes),
        is_solution(g, shape, s),
    ensures
        nodes.contains(o),
        entries.contains_key(o),
        fits(shape, o, entries[o]),
        s.node == node_id(o, 0),
{
    assert(says(g, s.node, shape.required[0], s.required[0]));
    let t = Triple { subject: s.node, predicate: shape.required[0], object: s.required[0] };
    let o = choose|o: int| #[trigger] entries.contains_key(o) && states(o, entries[o], t);
    assert(children_apart(shape, entries[o]));
    if !own_states(o, entries[o], t) {
        let j = choose|j: int| #[trigger] child_states(o, entries[o], j, t);
        assert(!entries[o].children[j].contains_key(shape.required[0]));
    }
    if !nodes.contains(o) {
        assert(is_foreign(shape, entries[o]));
    }
    let at = choose|i: int| 0 <= i < nodes.len() && nodes[i] == o;
    assert(entries.contains_key(nodes[at]));
    o
}

/// A child of a solution is one of the entry's children.
proof fn lemma_child_of_entry(
    g: Set<Triple>,
    entries: Map<int, Entry>,
    shape: Shape,
    o: int,
    c: ChildSolution,
) -> (j: int)
    requires
        lays_out(g, entries),
        numbered(entries),
        entries.contains_key(o),
        fits(shape, o, entries[o]),
        is_child(g, shape, node_id(o, 0), c),
    ensures
        0 <= j < entries[o].children.len(),
        c == child_solution(shape, o, entries[o], j),
{
    let e = entries[o];
    lemma_own_statements(g, entries, o, shape.link, ObjectView::Blank(c.node));
    let j = choose|j: int|
        0 <= j < e.children.len() && ObjectView::Blank(c.node) == ObjectView::Blank(
            #[trigger] node_id(o, j + 1),
        );
    assert(child_fits(shape, j, e.children[j]));
    lemma_child_statements(g, entries, o, j, order_iri(), ObjectView::Integer(c.order));
    let want = child_solution(shape, o, e, j);
    assert(c.required =~= want.required) by {
        assert forall|i: int| 0 <= i < shape.child_required.len() implies c.required[i]
            == want.required[i] by {
            assert(says(g, c.node, shape.child_required[i], c.required[i]));
            lemma_child_statements(g, entries, o, j, shape.child_required[i], c.required[i]);
        }
    }
    assert(c.optional =~= want.optional) by {
        assert forall|i: int| 0 <= i < shape.child_optional.len() implies c.optional[i]
            == want.optional[i] by {
            let p = shape.child_optional[i];
            match c.optional[i] {
                Some(v) => {
                    lemma_child_statements(g, entries, o, j, p, v);
                },
                None => {
                    if e.children[j].contains_key(p) {
                        lemma_child_statements(g, entries, o, j, p, e.children[j][p]);
                        assert(!says(g, c.node, p, e.children[j][p]));
                    }
                },
            }
        }
    }
    j
}

/// A solution stands in the run of its entry.
proof fn lemma_solution_in_run(
    g: Set<Triple>,
    entries: Map<int, Entry>,
    shape: Shape,
    nodes: Seq<int>,
    s: Solution,
) -> (o: int)
    requires
        lays_out(g, entries),
        numbered(entries),
        sorted_out(shape, entries, nodes),
        is_solution(g, shape, s),
    ensures
        nodes.contains(o),
        run(shape, o, entries[o]).contains(s),
{
    let o = lemma_solution_node(g, entries, shape, nodes, s);
    let e = entries[o];
    lemma_own_statements(g, entries, o, order_iri(), ObjectView::Integer(s.order));
    let want = solution(shape, o, e, s.child);
    assert(s.required =~= want.required) by {
        assert forall|i: int| 0 <= i < shape.required.len() implies s.required[i]
            == want.required[i] by {
            assert(says(g, s.node, shape.required[i], s.required[i]));
            lemma_own_statements(g, entries, o, shape.required[i], s.required[i]);
        }
    }
    assert(s.optional =~= want.optional) by {
        assert forall|i: int| 0 <= i < shape.optional.len() implies s.optional[i]
            == want.optional[i] by {
            let p = shape.optional[i];
            match s.optional[i] {
                Some(v) => {
                    lemma_own_statements(g, entries, o, p, v);
                },
                None => {
                    if e.attrs.contains_key(p) {
                        lemma_own_statements(g, entries, o, p, e.attrs[p]);
                        assert(!says(g, s.node, p, e.attrs[p]));
                    }
                },
            }
        }
    }
    assert(s == want);
    match s.child {
        Some(c) => {
            let j = lemma_child_of_entry(g, entries, shape, o, c);
            assert(run(shape, o, e)[j] == s);
        },
        None => {
            if e.children.len() > 0 {
                lemma_child_solves(g, entries, shape, o, 0);
                assert(!is_child(g, shape, s.node, child_solution(shape, o, e, 0)));
            }
            assert(run(shape, o, e)[0] == s);
        },
    }
    o
}

/// A solution stands in the runs of a list exactly where it stands in the run
/// of one of its members.
proof fn lemma_runs_contain(shape: Shape, entries: Map<int, Entry>, nodes: Seq<int>, s: Solution)
    ensures
        runs(shape, entries, nodes).contains(s) <==> exists|i: int|
            0 <= i < nodes.len() && #[trigger] run(shape, nodes[i], entries[nodes[i]]).contains(s),
    decreases nodes.len(),
{
    if nodes.len() > 0 {
        let before = nodes.drop_last();
        let head = runs(shape, entries, before);
        let tail = run(shape, nodes.last(), entries[nodes.last()]);
        lemma_runs_contain(shape, entries, before, s);
        assert(runs(shape, entries, nodes) =~= head + tail);
        if runs(shape, entries, nodes).contains(s) {
            let k = choose|k: int| 0 <= k < (head + tail).len() && (head + tail)[k] == s;
            if k < head.len() {
                assert(head[k] == s);
                let i = choose|i: int|
                    0 <= i < before.len() && #[trigger] run(
                        shape,
                        before[i],
                        entries[before[i]],
                    ).contains(s);
                assert(run(shape, nodes[i], entries[nodes[i]]).contains(s));
            } else {
                assert(tail[k - head.len()] == s);
                assert(run(shape, nodes[nodes.len() - 1], entries[nodes[nodes.len() - 1]]).contains(
                    s,
                ));
            }
        }
        if exists|i: int|
            0 <= i < nodes.len() && #[trigger] run(shape, nodes[i], entries[nodes[i]]).contains(
                s,
            ) {
            let i = choose|i: int|
                0 <= i < nodes.len() && #[trigger] run(shape, nodes[i], entries[nodes[i]]).contains(
                    s,
                );
            if i < before.len() {
                assert(run(shape, before[i], entries[before[i]]).contains(s));
                let k = choose|k: int| 0 <= k < head.len() && head[k] == s;
                assert((head + tail)[k] == s);
            } else {
                let k = choose|k: int| 0 <= k < tail.len() && tail[k] == s;
                assert((head + tail)[head.len() + k] == s);
            }
        }
    }
}

/// Whether `a` must stand before `b`.
pub open spec fn before(a: Solution, b: Solution) -> bool {
    a.order < b.order || (a.order == b.order && child_rank(a) < child_rank(b))
}

/// Whether each solution must stand before those after it.
pub open spec fn strictly_ordered(sols: Seq<Solution>) -> bool {
    forall|i: int, j: int|
        0 <= i < j < sols.len() ==> before(#[trigger] sols[i], #[trigger] sols[j])
}

/// The runs of an ordered list are ordered, and hold the orders of its members.
proof fn lemma_runs_ordered(shape: Shape, entries: Map<int, Entry>, nodes: Seq<int>)
    requires
        forall|i: int, j: int| 0 <= i < j < nodes.len() ==> nodes[i] < nodes[j],
    ensures
        strictly_ordered(runs(shape, entries, nodes)),
        forall|k: int|
            0 <= k < runs(shape, entries, nodes).len() ==> nodes.contains(
                #[trigger] runs(shape, entries, nodes)[k].order,
            ),
    decreases nodes.len(),
{
    if nodes.len() > 0 {
        let rest = nodes.drop_last();
        let head = runs(shape, entries, rest);
        let tail = run(shape, nodes.last(), entries[nodes.last()]);
        lemma_runs_ordered(shape, entries, rest);
        let all = head + tail;
        assert(runs(shape, entries, nodes) =~= all);
        assert forall|k: int| 0 <= k < all.len() implies nodes.contains(#[trigger] all[k].order) by {
            if k < head.len() {
                assert(rest.contains(head[k].order));
                let i = choose|i: int| 0 <= i < rest.len() && rest[i] == head[k].order;
                assert(nodes[i] == head[k].order);
            } else {
                assert(nodes[nodes.len() - 1] == all[k].order);
            }
        }
        assert forall|i: int, j: int| 0 <= i < j < all.len() implies before(
            #[trigger] all[i],
            #[trigger] all[j],
        ) by {
            if i < head.len() && j >= head.len() {
                assert(rest.contains(head[i].order));
                let at = choose|at: int| 0 <= at < rest.len() && rest[at] == head[i].order;
                assert(nodes[at] < nodes[nodes.len() - 1]);
            } else if i < head.len() {
                assert(before(head[i], head[j]));
            }
        }
    }
}

/// Two ordered lists of the same solutions are the same list.
proof fn lemma_same_order(a: Seq<Solution>, b: Seq<Solution>)
    requires
        strictly_ordered(a),
        strictly_ordered(b),
        forall|s: Solution| a.contains(s) <==> b.contains(s),
    ensures
        a == b,
    decreases a.len(),
{
    if a.len() == 0 {
        if b.len() > 0 {
            assert(b.contains(b[0]));
        }
    } else {
        assert(a.contains(a.last()));
        assert(b.len() > 0);
        assert(b.contains(b.last()));
        let i = choose|i: int| 0 <= i < a.len() && a[i] == b.last();
        let j = choose|j: int| 0 <= j < b.len() && b[j] == a.last();
        if i < a.len() - 1 && j < b.len() - 1 {
            assert(before(a[i], a[a.len() - 1]));
            assert(before(b[j], b[b.len() - 1]));
        }
        assert(a.last() == b.last());
        let a1 = a.drop_last();
        let b1 = b.drop_last();
        assert forall|s: Solution| a1.contains(s) <==> b1.contains(s) by {
            if a1.contains(s) {
                let k = choose|k: int| 0 <= k < a1.len() && a1[k] == s;
                assert(a[k] == s);
                assert(before(a[k], a[a.len() - 1]));
                assert(b.contains(s));
                let m = choose|m: int| 0 <= m < b.len() && b[m] == s;
                assert(b1[m] == s);
            }
            if b1.contains(s) {
                let k = choose|k: int| 0 <= k < b1.len() && b1[k] == s;
                assert(b[k] == s);
                assert(before(b[k], b[b.len() - 1]));
                assert(a.contains(s));
                let m = choose|m: int| 0 <= m < a.len() && a[m] == s;
                assert(a1[m] == s);
            }
        }
        lemma_same_order(a1, b1);
        assert(a =~= a1.push(a.last()));
        assert(b =~= b1.push(b.last()));
    }
}

/// The answer to a query is the runs of the entries it asks for, in order.
pub proof fn lemma_listing(
    g: Set<Triple>,
    entries: Map<int, Entry>,
    shape: Shape,
    nodes: Seq<int>,
    sols: Seq<Solution>,
)
    requires
        lays_out(g, entries),
        numbered(entries),
        sorted_out(shape, entries, nodes),
        lists(g, shape, sols),
    ensures
        sols == runs(shape, entries, nodes),
{
    let want = runs(shape, entries, nodes);
    lemma_runs_ordered(shape, entries, nodes);
    assert forall|s: Solution| sols.contains(s) <==> want.contains(s) by {
        lemma_runs_contain(shape, entries, nodes, s);
        if sols.contains(s) {
            assert(is_solution(g, shape, s));
            let o = lemma_solution_in_run(g, entries, shape, nodes, s);
            let i = choose|i: int| 0 <= i < nodes.len() && nodes[i] == o;
            assert(run(shape, nodes[i], entries[nodes[i]]).contains(s));
        }
        if want.contains(s) {
            let i = choose|i: int|
                0 <= i < nodes.len() && #[trigger] run(shape, nodes[i], entries[nodes[i]]).contains(
                    s,
                );
            let r = run(shape, nodes[i], entries[nodes[i]]);
            let k = choose|k: int| 0 <= k < r.len() && r[k] == s;
            lemma_run_solves(g, entries, shape, nodes, nodes[i], k);
            assert(is_solution(g, shape, s));
        }
    }
    assert(strictly_ordered(sols)) by {
        assert forall|i: int, j: int| 0 <= i < j < sols.len() implies before(
            #[trigger] sols[i],
            #[trigger] sols[j],
        ) by {
            assert(not_after(sols[i], sols[j]));
            assert(sols.contains(sols[i]) && sols.contains(sols[j]));
            assert(want.contains(sols[i]) && want.contains(sols[j]));
            let a = choose|a: int| 0 <= a < want.len() && want[a] == sols[i];
            let b = choose|b: int| 0 <= b < want.len() && want[b] == sols[j];
            assert(sols[i] != sols[j]);
            if b < a {
                assert(before(want[b], want[a]));
            } else {
                assert(before(want[a], want[b]));
            }
        }
    }
    lemma_same_order(sols, want);
}

} // verus!

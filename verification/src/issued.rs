//! The credentials that the graph finds by type: those of the wanted types in
//! the batches that were issued.

use vstd::multiset::Multiset;
use vstd::prelude::*;
use vstd::seq_lib::{to_multiset_build, to_multiset_len};

use crate::grouping::{column, credential_in, selected};
use crate::json::decoded;
use crate::model::{BatchView, EntryView, OfferView};
use crate::nodes::{
    child_states, lays_out, lemma_child_statements, lemma_node_id, lemma_own_statements, node_id,
    numbered, own_states, states, Entry,
};
use crate::query::{
    batch_shape, binds, is_issued_solution, lists_issued, row_shows, rows_show_issued, says, shows,
    CellView, IssuedSolution,
};
use crate::rdf::{ObjectView, Triple};
use crate::records::{
    batch_entry, batch_view, credential_attrs, lemma_vocabulary, offer_entry, offered_attrs,
    BatchRecord, CredentialRecord,
};
use crate::vocab::ds_iri;

verus! {

/// The credentials of the wanted types.
pub open spec fn of_types(list: Seq<EntryView>, types: Seq<Seq<char>>) -> Seq<EntryView> {
    list.filter(|c: EntryView| types.contains(c.credential_type))
}

/// The credentials of the wanted types in a batch, where it was issued.
pub open spec fn issued_in(b: BatchView, types: Seq<Seq<char>>) -> Seq<EntryView> {
    if b.status == "ISSUED"@ {
        of_types(b.credentials, types)
    } else {
        Seq::empty()
    }
}

/// The credentials of the wanted types in the batches that were issued.
pub open spec fn issued_of_types(batches: Seq<BatchView>, types: Seq<Seq<char>>) -> Seq<EntryView>
    decreases batches.len(),
{
    if batches.len() == 0 {
        Seq::empty()
    } else {
        issued_of_types(batches.drop_last(), types) + issued_in(batches.last(), types)
    }
}

/// Whether a credential stands at a place in a batch that was issued.
pub open spec fn stands_issued_at(batches: Seq<BatchView>, i: int, j: int, c: EntryView) -> bool {
    &&& 0 <= i < batches.len()
    &&& batches[i].status == "ISSUED"@
    &&& 0 <= j < batches[i].credentials.len()
    &&& batches[i].credentials[j] == c
}

/// Whether a credential stands in a batch that was issued.
pub open spec fn stands_issued(batches: Seq<BatchView>, c: EntryView) -> bool {
    exists|i: int, j: int| stands_issued_at(batches, i, j, c)
}

/// Whether a credential of a wanted type stands at a place in a batch that was
/// issued.
pub open spec fn issued_at(
    batches: Seq<BatchView>,
    types: Seq<Seq<char>>,
    i: int,
    j: int,
    c: EntryView,
) -> bool {
    stands_issued_at(batches, i, j, c) && types.contains(c.credential_type)
}

/// A credential is found by type exactly where it is of a wanted type and stands
/// in a batch that was issued: one of a rejected or unknown batch is never found.
pub proof fn law_found_by_type(batches: Seq<BatchView>, types: Seq<Seq<char>>, c: EntryView)
    ensures
        issued_of_types(batches, types).contains(c) <==> exists|i: int, j: int|
            issued_at(batches, types, i, j, c),
    decreases batches.len(),
{
    let found = issued_of_types(batches, types);
    if batches.len() == 0 {
        assert forall|i: int, j: int| !issued_at(batches, types, i, j, c) by {}
    } else {
        let rest = batches.drop_last();
        let last = batches.last();
        let before = issued_of_types(rest, types);
        let here = issued_in(last, types);
        law_found_by_type(rest, types, c);
        lemma_of_types_contains(last.credentials, types, c);
        if found.contains(c) {
            let k = choose|k: int| 0 <= k < found.len() && found[k] == c;
            if k < before.len() {
                assert(before[k] == c);
                let (i, j) = choose|i: int, j: int| issued_at(rest, types, i, j, c);
                assert(issued_at(batches, types, i, j, c));
            } else {
                assert(here[k - before.len()] == c);
                assert(here.contains(c));
                let j = choose|j: int|
                    0 <= j < last.credentials.len() && last.credentials[j] == c;
                assert(issued_at(batches, types, batches.len() - 1, j, c));
            }
        }
        if exists|i: int, j: int| issued_at(batches, types, i, j, c) {
            let (i, j) = choose|i: int, j: int| issued_at(batches, types, i, j, c);
            if i < rest.len() {
                assert(issued_at(rest, types, i, j, c));
                let k = choose|k: int| 0 <= k < before.len() && before[k] == c;
                assert(found[k] == c);
            } else {
                assert(last.credentials[j] == c);
                assert(last.credentials.contains(c));
                assert(here.contains(c));
                let k = choose|k: int| 0 <= k < here.len() && here[k] == c;
                assert(found[before.len() + k] == c);
            }
        }
    }
}

proof fn lemma_of_types_contains(list: Seq<EntryView>, types: Seq<Seq<char>>, c: EntryView)
    ensures
        of_types(list, types).contains(c) <==> list.contains(c) && types.contains(
            c.credential_type,
        ),
    decreases list.len(),
{
    reveal(Seq::filter);
    let kept = of_types(list, types);
    if list.len() > 0 {
        let rest = list.drop_last();
        let before = of_types(rest, types);
        lemma_of_types_contains(rest, types, c);
        assert(list =~= rest.push(list.last()));
        assert(kept =~= if types.contains(list.last().credential_type) {
            before.push(list.last())
        } else {
            before
        });
        if kept.contains(c) {
            let k = choose|k: int| 0 <= k < kept.len() && kept[k] == c;
            if k < before.len() {
                assert(before[k] == c);
                let m = choose|m: int| 0 <= m < rest.len() && rest[m] == c;
                assert(list[m] == c);
            } else {
                assert(list[list.len() - 1] == c);
            }
        }
        if list.contains(c) && types.contains(c.credential_type) {
            let m = choose|m: int| 0 <= m < list.len() && list[m] == c;
            if m < rest.len() {
                assert(rest[m] == c);
                let k = choose|k: int| 0 <= k < before.len() && before[k] == c;
                assert(kept[k] == c);
            } else {
                assert(kept[before.len() as int] == c);
            }
        }
    }
}

/// A batch that was not issued adds nothing to what is found, whatever it holds.
pub proof fn law_rejected_batch_adds_nothing(
    batches: Seq<BatchView>,
    rejected: BatchView,
    types: Seq<Seq<char>>,
)
    requires
        rejected.status != "ISSUED"@,
    ensures
        issued_of_types(batches.push(rejected), types) == issued_of_types(batches, types),
{
    assert(batches.push(rejected).drop_last() =~= batches);
}

/// An issued batch adds its credentials of the wanted types, and nothing else.
pub proof fn law_issued_batch_adds_its_credentials(
    batches: Seq<BatchView>,
    issued: BatchView,
    types: Seq<Seq<char>>,
)
    requires
        issued.status == "ISSUED"@,
    ensures
        issued_of_types(batches.push(issued), types) == issued_of_types(batches, types) + of_types(
            issued.credentials,
            types,
        ),
{
    assert(batches.push(issued).drop_last() =~= batches);
}

/// Whoever asks for no type finds nothing.
pub proof fn law_no_types_find_nothing(batches: Seq<BatchView>)
    ensures
        issued_of_types(batches, Seq::empty()).len() == 0,
{
    let found = issued_of_types(batches, Seq::empty());
    if found.len() > 0 {
        assert(found.contains(found[0]));
        law_found_by_type(batches, Seq::empty(), found[0]);
    }
}

/// Whether the entries under the given numbers are these, and the numbers ascend.
pub open spec fn numbered_as(entries: Map<int, Entry>, nodes: Seq<int>, list: Seq<Entry>) -> bool {
    &&& nodes.len() == list.len()
    &&& forall|i: int, j: int| 0 <= i < j < nodes.len() ==> nodes[i] < nodes[j]
    &&& forall|i: int|
        0 <= i < nodes.len() ==> entries.contains_key(#[trigger] nodes[i]) && entries[nodes[i]]
            == list[i]
}

/// Whether every entry stands under one of the numbers of two lists.
pub open spec fn covers(entries: Map<int, Entry>, here: Seq<int>, there: Seq<int>) -> bool {
    forall|o: int| #[trigger] entries.contains_key(o) ==> here.contains(o) || there.contains(o)
}

/// The entries of batches under their numbers.
pub open spec fn batch_entries(nodes: Seq<int>, batches: Seq<BatchRecord>) -> Seq<Entry> {
    Seq::new(batches.len(), |i: int| batch_entry(nodes[i], batches[i]))
}

/// The entries of offers under their numbers.
pub open spec fn offer_entries(nodes: Seq<int>, offers: Seq<OfferView>) -> Seq<Entry> {
    Seq::new(offers.len(), |i: int| offer_entry(nodes[i], offers[i]))
}

/// Whether the entries are those of the given batches and offers.
pub open spec fn holds_entries(
    entries: Map<int, Entry>,
    batch_nodes: Seq<int>,
    batches: Seq<BatchRecord>,
    offer_nodes: Seq<int>,
    offers: Seq<OfferView>,
) -> bool {
    &&& numbered_as(entries, batch_nodes, batch_entries(batch_nodes, batches))
    &&& numbered_as(entries, offer_nodes, offer_entries(offer_nodes, offers))
    &&& covers(entries, batch_nodes, offer_nodes)
}

/// An entry under a number above all others joins the end of one of two lists.
pub proof fn lemma_entry_joins(
    entries: Map<int, Entry>,
    here: Seq<int>,
    list: Seq<Entry>,
    there: Seq<int>,
    others: Seq<Entry>,
    o: int,
    e: Entry,
)
    requires
        numbered_as(entries, here, list),
        numbered_as(entries, there, others),
        covers(entries, here, there),
        forall|k: int| #[trigger] entries.contains_key(k) ==> k < o,
    ensures
        numbered_as(entries.insert(o, e), here.push(o), list.push(e)),
        numbered_as(entries.insert(o, e), there, others),
        covers(entries.insert(o, e), here.push(o), there),
{
    let now = entries.insert(o, e);
    let longer = here.push(o);
    assert forall|k: int| #[trigger] now.contains_key(k) implies longer.contains(k)
        || there.contains(k) by {
        if k == o {
            assert(longer[here.len() as int] == k);
        } else {
            assert(entries.contains_key(k));
            if here.contains(k) {
                let i = choose|i: int| 0 <= i < here.len() && here[i] == k;
                assert(longer[i] == k);
            }
        }
    }
    assert forall|i: int, j: int| 0 <= i < j < longer.len() implies longer[i] < longer[j] by {
        assert(entries.contains_key(here[i]));
    }
    assert forall|i: int| 0 <= i < longer.len() implies now.contains_key(#[trigger] longer[i])
        && now[longer[i]] == list.push(e)[i] by {
        if i < here.len() {
            assert(entries.contains_key(here[i]));
        }
    }
    assert forall|i: int| 0 <= i < there.len() implies now.contains_key(#[trigger] there[i])
        && now[there[i]] == others[i] by {
        assert(entries.contains_key(there[i]));
    }
}

/// The first entry of one of two lists leaves it, and neither list loses another.
pub proof fn lemma_entry_leaves(
    entries: Map<int, Entry>,
    here: Seq<int>,
    list: Seq<Entry>,
    there: Seq<int>,
    others: Seq<Entry>,
)
    requires
        numbered_as(entries, here, list),
        numbered_as(entries, there, others),
        covers(entries, here, there),
        here.len() > 0,
        !there.contains(here[0]),
    ensures
        numbered_as(entries.remove(here[0]), here.drop_first(), list.drop_first()),
        numbered_as(entries.remove(here[0]), there, others),
        covers(entries.remove(here[0]), here.drop_first(), there),
{
    let now = entries.remove(here[0]);
    let shorter = here.drop_first();
    assert forall|k: int| #[trigger] now.contains_key(k) implies shorter.contains(k)
        || there.contains(k) by {
        assert(entries.contains_key(k));
        if here.contains(k) {
            let i = choose|i: int| 0 <= i < here.len() && here[i] == k;
            assert(shorter[i - 1] == k);
        }
    }
    assert forall|i: int| 0 <= i < shorter.len() implies now.contains_key(#[trigger] shorter[i])
        && now[shorter[i]] == list.drop_first()[i] by {
        assert(here[i + 1] == shorter[i]);
        assert(here[0] < here[i + 1]);
    }
    assert forall|i: int| 0 <= i < there.len() implies now.contains_key(#[trigger] there[i])
        && now[there[i]] == others[i] by {
        assert(entries.contains_key(there[i]));
        assert(there.contains(there[i]));
    }
}

/// The values that the query asks for of a credential.
pub open spec fn credential_values(c: CredentialRecord) -> Seq<ObjectView> {
    seq![
        ObjectView::Text(c.credential_type),
        ObjectView::Text(c.format),
        ObjectView::Text(c.literal),
    ]
}

/// The solutions for a batch.
pub open spec fn issued_run(o: int, r: BatchRecord) -> Seq<IssuedSolution> {
    if r.status == "ISSUED"@ {
        Seq::new(
            r.credentials.len(),
            |j: int|
                IssuedSolution {
                    batch: node_id(o, 0),
                    credential: node_id(o, j + 1),
                    values: credential_values(r.credentials[j]),
                },
        )
    } else {
        Seq::empty()
    }
}

/// The solutions for a list of batches.
pub open spec fn issued_runs(nodes: Seq<int>, records: Seq<BatchRecord>) -> Seq<IssuedSolution>
    decreases nodes.len(),
{
    if nodes.len() == 0 {
        Seq::empty()
    } else {
        issued_runs(nodes.drop_last(), records.drop_last()) + issued_run(
            nodes.last(),
            records.last(),
        )
    }
}

/// The text of a value.
pub open spec fn value_text(v: ObjectView) -> Seq<char> {
    match v {
        ObjectView::Text(text) => text,
        ObjectView::Named(iri) => iri,
        _ => Seq::empty(),
    }
}

/// The credential in a solution.
pub open spec fn solution_entry(s: IssuedSolution) -> EntryView {
    EntryView {
        credential_type: value_text(s.values[0]),
        format: value_text(s.values[1]),
        payload: decoded(value_text(s.values[2])),
    }
}

/// What a solution adds to the credentials of the wanted types.
pub open spec fn share(s: IssuedSolution, types: Seq<Seq<char>>) -> Multiset<EntryView> {
    if types.contains(solution_entry(s).credential_type) {
        Multiset::singleton(solution_entry(s))
    } else {
        Multiset::empty()
    }
}

/// The credentials of the wanted types among solutions.
pub open spec fn gathered(sols: Seq<IssuedSolution>, types: Seq<Seq<char>>) -> Multiset<EntryView>
    decreases sols.len(),
{
    if sols.len() == 0 {
        Multiset::empty()
    } else {
        gathered(sols.drop_last(), types).add(share(sols.last(), types))
    }
}

/// Taking one solution out takes its share out.
proof fn lemma_gathered_remove(sols: Seq<IssuedSolution>, types: Seq<Seq<char>>, m: int)
    requires
        0 <= m < sols.len(),
    ensures
        gathered(sols, types) =~= gathered(sols.remove(m), types).add(share(sols[m], types)),
    decreases sols.len(),
{
    if m == sols.len() - 1 {
        assert(sols.remove(m) =~= sols.drop_last());
    } else {
        lemma_gathered_remove(sols.drop_last(), types, m);
        assert(sols.remove(m).drop_last() =~= sols.drop_last().remove(m));
        assert(sols.remove(m).last() == sols.last());
    }
}

/// The same solutions in another order hold the same credentials.
proof fn lemma_gathered_same(
    a: Seq<IssuedSolution>,
    b: Seq<IssuedSolution>,
    types: Seq<Seq<char>>,
)
    requires
        a.no_duplicates(),
        b.no_duplicates(),
        forall|s: IssuedSolution| a.contains(s) <==> b.contains(s),
    ensures
        gathered(a, types) == gathered(b, types),
    decreases a.len(),
{
    if a.len() == 0 {
        if b.len() > 0 {
            assert(b.contains(b[0]));
        }
    } else {
        let x = a.last();
        assert(a.contains(x));
        let m = choose|m: int| 0 <= m < b.len() && b[m] == x;
        let a1 = a.drop_last();
        let b1 = b.remove(m);
        assert forall|s: IssuedSolution| a1.contains(s) <==> b1.contains(s) by {
            if a1.contains(s) {
                let k = choose|k: int| 0 <= k < a1.len() && a1[k] == s;
                assert(a[k] == s);
                assert(b.contains(s));
                let q = choose|q: int| 0 <= q < b.len() && b[q] == s;
                assert(s != x);
                if q < m {
                    assert(b1[q] == s);
                } else {
                    assert(b1[q - 1] == s);
                }
            }
            if b1.contains(s) {
                let k = choose|k: int| 0 <= k < b1.len() && b1[k] == s;
                let q = if k < m {
                    k
                } else {
                    k + 1
                };
                assert(b[q] == s);
                assert(a.contains(s));
                let p = choose|p: int| 0 <= p < a.len() && a[p] == s;
                assert(s != x);
                assert(a1[p] == s);
            }
        }
        assert(b1.no_duplicates()) by {
            assert forall|i: int, j: int| 0 <= i < b1.len() && 0 <= j < b1.len() && i != j implies b1[i]
                != b1[j] by {
                let p = if i < m {
                    i
                } else {
                    i + 1
                };
                let q = if j < m {
                    j
                } else {
                    j + 1
                };
                assert(b1[i] == b[p] && b1[j] == b[q]);
            }
        }
        lemma_gathered_same(a1, b1, types);
        lemma_gathered_remove(b, types, m);
    }
}

/// The credentials selected from the rows are those of the solutions.
proof fn lemma_selected(
    rows: Seq<Seq<Option<CellView>>>,
    sols: Seq<IssuedSolution>,
    types: Seq<Seq<char>>,
)
    requires
        rows_show_issued(rows, sols),
        forall|i: int|
            0 <= i < sols.len() ==> (#[trigger] sols[i]).values.len() == 3 && sols[i].values[0] is Text
                && sols[i].values[1] is Text && sols[i].values[2] is Text,
    ensures
        selected(rows, types).to_multiset() == gathered(sols, types),
    decreases sols.len(),
{
    broadcast use vstd::multiset::group_multiset_axioms;

    if sols.len() == 0 {
        to_multiset_len(selected(rows, types));
        assert(selected(rows, types).to_multiset() =~= Multiset::empty());
    } else {
        let n = sols.len() - 1;
        assert(rows_show_issued(rows.drop_last(), sols.drop_last())) by {
            assert forall|i: int| 0 <= i < n implies row_shows(
                #[trigger] rows.drop_last()[i],
                sols.drop_last()[i].values.map_values(|v: ObjectView| Some(v)),
            ) by {
                assert(row_shows(rows[i], sols[i].values.map_values(|v: ObjectView| Some(v))));
            }
        }
        lemma_selected(rows.drop_last(), sols.drop_last(), types);
        let row = rows[n];
        let s = sols[n];
        let bound = s.values.map_values(|v: ObjectView| Some(v));
        assert(row_shows(rows[n], bound));
        assert(shows(row[0], bound[0]) && shows(row[1], bound[1]) && shows(row[2], bound[2]));
        assert(credential_in(column(row, 0), column(row, 1), column(row, 2)) == Some(
            solution_entry(s),
        ));
        to_multiset_build(selected(rows.drop_last(), types), solution_entry(s));
        assert(selected(rows, types).to_multiset() =~= gathered(sols, types));
    }
}

/// The credentials in the solutions for a batch.
proof fn lemma_gathered_run(
    prior: Seq<IssuedSolution>,
    o: int,
    r: BatchRecord,
    types: Seq<Seq<char>>,
    n: int,
)
    requires
        0 <= n <= r.credentials.len(),
        r.status == "ISSUED"@,
    ensures
        gathered(prior + issued_run(o, r).take(n), types) == gathered(prior, types).add(
            of_types(batch_view(r).credentials.take(n), types).to_multiset(),
        ),
    decreases n,
{
    broadcast use vstd::multiset::group_multiset_axioms;

    let all = batch_view(r).credentials;
    let want = |c: EntryView| types.contains(c.credential_type);
    if n == 0 {
        assert(prior + issued_run(o, r).take(0) =~= prior);
        assert(all.take(0) =~= Seq::empty());
        reveal(Seq::filter);
        to_multiset_len(of_types(all.take(0), types));
        assert(of_types(all.take(0), types).to_multiset() =~= Multiset::empty());
        assert(gathered(prior, types) =~= gathered(prior, types).add(Multiset::empty()));
    } else {
        lemma_gathered_run(prior, o, r, types, n - 1);
        let sols = prior + issued_run(o, r).take(n);
        assert(sols.drop_last() =~= prior + issued_run(o, r).take(n - 1));
        assert(sols.last() == issued_run(o, r)[n - 1]);
        assert(solution_entry(sols.last()) == all[n - 1]);
        assert(all.take(n).drop_last() =~= all.take(n - 1));
        reveal(Seq::filter);
        to_multiset_build(of_types(all.take(n - 1), types), all[n - 1]);
        assert(gathered(sols, types) =~= gathered(prior, types).add(
            of_types(all.take(n), types).to_multiset(),
        ));
    }
}

/// The credentials in the solutions for a list of batches.
proof fn lemma_gathered_runs(
    nodes: Seq<int>,
    records: Seq<BatchRecord>,
    types: Seq<Seq<char>>,
)
    requires
        nodes.len() == records.len(),
    ensures
        gathered(issued_runs(nodes, records), types) == issued_of_types(
            records.map_values(|r: BatchRecord| batch_view(r)),
            types,
        ).to_multiset(),
    decreases nodes.len(),
{
    broadcast use vstd::multiset::group_multiset_axioms;

    let views = records.map_values(|r: BatchRecord| batch_view(r));
    if nodes.len() == 0 {
        to_multiset_len(issued_of_types(views, types));
        assert(issued_of_types(views, types).to_multiset() =~= Multiset::empty());
    } else {
        let o = nodes.last();
        let r = records.last();
        let prior = issued_runs(nodes.drop_last(), records.drop_last());
        lemma_gathered_runs(nodes.drop_last(), records.drop_last(), types);
        assert(views.drop_last() =~= records.drop_last().map_values(
            |r: BatchRecord| batch_view(r),
        ));
        let before = issued_of_types(views.drop_last(), types);
        let last = issued_in(views.last(), types);
        vstd::seq_lib::lemma_multiset_commutative(before, last);
        if r.status == "ISSUED"@ {
            let n = r.credentials.len() as int;
            lemma_gathered_run(prior, o, r, types, n);
            assert(issued_run(o, r).take(n) =~= issued_run(o, r));
            assert(batch_view(r).credentials.take(n) =~= batch_view(r).credentials);
        } else {
            assert(prior + issued_run(o, r) =~= prior);
            to_multiset_len(last);
            assert(last.to_multiset() =~= Multiset::empty());
        }
        assert(gathered(issued_runs(nodes, records), types) =~= issued_of_types(
            views,
            types,
        ).to_multiset());
    }
}

/// A solution stands in the runs exactly where it stands in the run of one
/// batch.
proof fn lemma_issued_contain(nodes: Seq<int>, records: Seq<BatchRecord>, s: IssuedSolution)
    requires
        nodes.len() == records.len(),
    ensures
        issued_runs(nodes, records).contains(s) <==> exists|i: int|
            0 <= i < nodes.len() && #[trigger] issued_run(nodes[i], records[i]).contains(s),
    decreases nodes.len(),
{
    if nodes.len() > 0 {
        let n1 = nodes.drop_last();
        let r1 = records.drop_last();
        let head = issued_runs(n1, r1);
        let tail = issued_run(nodes.last(), records.last());
        lemma_issued_contain(n1, r1, s);
        assert(issued_runs(nodes, records) =~= head + tail);
        if issued_runs(nodes, records).contains(s) {
            let k = choose|k: int| 0 <= k < (head + tail).len() && (head + tail)[k] == s;
            if k < head.len() {
                assert(head[k] == s);
                let i = choose|i: int|
                    0 <= i < n1.len() && #[trigger] issued_run(n1[i], r1[i]).contains(s);
                assert(issued_run(nodes[i], records[i]).contains(s));
            } else {
                assert(tail[k - head.len()] == s);
                let last = nodes.len() - 1;
                assert(issued_run(nodes[last], records[last]).contains(s));
            }
        }
        if exists|i: int|
            0 <= i < nodes.len() && #[trigger] issued_run(nodes[i], records[i]).contains(s) {
            let i = choose|i: int|
                0 <= i < nodes.len() && #[trigger] issued_run(nodes[i], records[i]).contains(s);
            if i < n1.len() {
                assert(issued_run(n1[i], r1[i]).contains(s));
                let k = choose|k: int| 0 <= k < head.len() && head[k] == s;
                assert((head + tail)[k] == s);
            } else {
                let k = choose|k: int| 0 <= k < tail.len() && tail[k] == s;
                assert((head + tail)[head.len() + k] == s);
            }
        }
    }
}

/// No solution stands twice in the runs.
proof fn lemma_issued_distinct(nodes: Seq<int>, records: Seq<BatchRecord>)
    requires
        nodes.len() == records.len(),
        forall|i: int, j: int| 0 <= i < j < nodes.len() ==> nodes[i] < nodes[j],
    ensures
        issued_runs(nodes, records).no_duplicates(),
    decreases nodes.len(),
{
    if nodes.len() > 0 {
        let n1 = nodes.drop_last();
        let r1 = records.drop_last();
        let head = issued_runs(n1, r1);
        let o = nodes.last();
        let tail = issued_run(o, records.last());
        lemma_issued_distinct(n1, r1);
        let all = head + tail;
        assert(issued_runs(nodes, records) =~= all);
        assert forall|i: int, j: int| 0 <= i < all.len() && 0 <= j < all.len() && i != j implies all[i]
            != all[j] by {
            if i < head.len() && j < head.len() {
                assert(head[i] != head[j]);
            } else if i >= head.len() && j >= head.len() {
                let a = i - head.len();
                let b = j - head.len();
                assert(tail[a].credential == node_id(o, a + 1));
                assert(tail[b].credential == node_id(o, b + 1));
            } else {
                let early = if i < j {
                    i
                } else {
                    j
                };
                let late = if i < j {
                    j
                } else {
                    i
                };
                assert(head.contains(head[early]));
                lemma_issued_contain(n1, r1, head[early]);
                let at = choose|at: int|
                    0 <= at < n1.len() && #[trigger] issued_run(n1[at], r1[at]).contains(
                        head[early],
                    );
                assert(head[early].batch == node_id(nodes[at], 0));
                assert(tail[late - head.len()].batch == node_id(o, 0));
                assert(nodes[at] < nodes[nodes.len() - 1]);
                if node_id(nodes[at], 0) == node_id(o, 0) {
                    lemma_node_id(nodes[at], 0, o, 0);
                }
            }
        }
    }
}

/// The solutions of the query are those in the runs of the batches.
proof fn lemma_issued_solutions(
    g: Set<Triple>,
    entries: Map<int, Entry>,
    batch_nodes: Seq<int>,
    batches: Seq<BatchRecord>,
    offer_nodes: Seq<int>,
    offers: Seq<OfferView>,
    s: IssuedSolution,
)
    requires
        lays_out(g, entries),
        numbered(entries),
        holds_entries(entries, batch_nodes, batches, offer_nodes, offers),
    ensures
        is_issued_solution(g, s) <==> issued_runs(batch_nodes, batches).contains(s),
{
    lemma_vocabulary();
    lemma_issued_contain(batch_nodes, batches, s);
    let status = ds_iri("status"@);
    let link = ds_iri("hasCredential"@);
    let required = batch_shape().child_required;
    if is_issued_solution(g, s) {
        let t = Triple {
            subject: s.batch,
            predicate: status,
            object: ObjectView::Text("ISSUED"@),
        };
        let o = choose|o: int| #[trigger] entries.contains_key(o) && states(o, entries[o], t);
        if offer_nodes.contains(o) {
            let i = choose|i: int| 0 <= i < offer_nodes.len() && offer_nodes[i] == o;
            assert(entries[offer_nodes[i]] == offer_entry(o, offers[i]));
            if !own_states(o, entries[o], t) {
                let j = choose|j: int| #[trigger] child_states(o, entries[o], j, t);
                assert(entries[o].children[j] == offered_attrs(j, offers[i].credentials[j]));
            }
            assert(false);
        }
        let i = choose|i: int| 0 <= i < batch_nodes.len() && batch_nodes[i] == o;
        let r = batches[i];
        assert(entries[batch_nodes[i]] == batch_entry(o, r));
        if !own_states(o, entries[o], t) {
            let j = choose|j: int| #[trigger] child_states(o, entries[o], j, t);
            assert(entries[o].children[j] == credential_attrs(j, r.credentials[j]));
            assert(false);
        }
        assert(r.status == "ISSUED"@);
        lemma_own_statements(g, entries, o, link, ObjectView::Blank(s.credential));
        let j = choose|j: int|
            0 <= j < entries[o].children.len() && ObjectView::Blank(s.credential)
                == ObjectView::Blank(#[trigger] node_id(o, j + 1));
        assert(entries[o].children[j] == credential_attrs(j, r.credentials[j]));
        assert(s.values =~= credential_values(r.credentials[j])) by {
            assert forall|k: int| 0 <= k < 3 implies s.values[k] == credential_values(
                r.credentials[j],
            )[k] by {
                assert(says(g, s.credential, required[k], s.values[k]));
                lemma_child_statements(g, entries, o, j, required[k], s.values[k]);
            }
        }
        assert(issued_run(o, r)[j] == s);
        assert(issued_run(batch_nodes[i], batches[i]).contains(s));
    }
    if issued_runs(batch_nodes, batches).contains(s) {
        let i = choose|i: int|
            0 <= i < batch_nodes.len() && #[trigger] issued_run(
                batch_nodes[i],
                batches[i],
            ).contains(s);
        let o = batch_nodes[i];
        let r = batches[i];
        assert(entries.contains_key(batch_nodes[i]) && entries[o] == batch_entry(o, r));
        let j = choose|j: int| 0 <= j < issued_run(o, r).len() && issued_run(o, r)[j] == s;
        assert(entries[o].children[j] == credential_attrs(j, r.credentials[j]));
        lemma_own_statements(g, entries, o, status, ObjectView::Text("ISSUED"@));
        lemma_own_statements(g, entries, o, link, ObjectView::Blank(s.credential));
        assert(own_states(
            o,
            entries[o],
            Triple {
                subject: node_id(o, 0),
                predicate: link,
                object: ObjectView::Blank(node_id(o, j + 1)),
            },
        ));
        assert(binds(g, s.credential, required, s.values)) by {
            assert forall|k: int| 0 <= k < required.len() implies #[trigger] says(
                g,
                s.credential,
                required[k],
                s.values[k],
            ) by {
                lemma_child_statements(g, entries, o, j, required[k], s.values[k]);
            }
        }
    }
}

/// What is selected from the answer to the query is what the batches hold.
pub proof fn lemma_selected_issued(
    g: Set<Triple>,
    entries: Map<int, Entry>,
    batch_nodes: Seq<int>,
    batches: Seq<BatchRecord>,
    offer_nodes: Seq<int>,
    offers: Seq<OfferView>,
    rows: Seq<Seq<Option<CellView>>>,
    sols: Seq<IssuedSolution>,
    types: Seq<Seq<char>>,
)
    requires
        lays_out(g, entries),
        numbered(entries),
        holds_entries(entries, batch_nodes, batches, offer_nodes, offers),
        lists_issued(g, sols),
        rows_show_issued(rows, sols),
    ensures
        selected(rows, types).to_multiset() == issued_of_types(
            batches.map_values(|r: BatchRecord| batch_view(r)),
            types,
        ).to_multiset(),
{
    let want = issued_runs(batch_nodes, batches);
    assert forall|s: IssuedSolution| sols.contains(s) <==> want.contains(s) by {
        lemma_issued_solutions(g, entries, batch_nodes, batches, offer_nodes, offers, s);
    }
    lemma_issued_distinct(batch_nodes, batches);
    lemma_gathered_same(sols, want, types);
    lemma_gathered_runs(batch_nodes, batches, types);
    assert forall|i: int| 0 <= i < sols.len() implies (#[trigger] sols[i]).values.len() == 3
        && sols[i].values[0] is Text && sols[i].values[1] is Text && sols[i].values[2] is Text by {
        assert(sols.contains(sols[i]));
        assert(want.contains(sols[i]));
        lemma_issued_contain(batch_nodes, batches, sols[i]);
    }
    lemma_selected(rows, sols, types);
}

/// The credentials of the wanted types are taken one by one, in order: each that is
/// of one of them, as often as it stands there, and no other.
pub proof fn law_wanted_credentials_are_taken_one_by_one(
    list: Seq<EntryView>,
    c: EntryView,
    types: Seq<Seq<char>>,
)
    ensures
        of_types(Seq::empty(), types) == Seq::<EntryView>::empty(),
        types.contains(c.credential_type) ==> of_types(list.push(c), types) == of_types(
            list,
            types,
        ).push(c),
        !types.contains(c.credential_type) ==> of_types(list.push(c), types) == of_types(
            list,
            types,
        ),
        issued_of_types(Seq::empty(), types) == Seq::<EntryView>::empty(),
{
    reveal(Seq::filter);
    assert(list.push(c).drop_last() =~= list);
    assert(list.push(c).last() == c);
}

} // verus!

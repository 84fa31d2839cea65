//! Grouping the rows of an answer: consecutive rows of one node make one value.

use vstd::prelude::*;

use crate::json::{decode_payload, decoded, JsonValue, JsonView};
use crate::model::{
    batches_view, entries_view, offered_view, offers_view, AcceptedOffer, BatchView,
    CredentialBatch, CredentialEntry, EntryView, OfferView, OfferedCredential, OfferedView,
};
use crate::query::CellView;
use crate::rdf::{cell_view, rows_view, Cell};
use crate::text::{contains_text, optional_text, texts};

verus! {

/// The cell in column `k` of a row; a column that is not there is unbound.
pub open spec fn column(row: Seq<Option<CellView>>, k: int) -> Option<CellView> {
    if 0 <= k < row.len() {
        row[k]
    } else {
        None
    }
}

/// The text of a literal or an IRI.
pub open spec fn text_of(cell: Option<CellView>) -> Option<Seq<char>> {
    match cell {
        Some(CellView::Literal(text)) => Some(text),
        Some(CellView::Named(iri)) => Some(iri),
        _ => None,
    }
}

/// The text of a literal or an IRI, empty where there is none.
pub open spec fn text_or_empty(cell: Option<CellView>) -> Seq<char> {
    match text_of(cell) {
        Some(text) => text,
        None => Seq::empty(),
    }
}

/// The values made so far with one more row: a row on the node of the last value
/// adds to that value, another one starts a new value. A row without a node is
/// passed over.
pub open spec fn group_step<T>(
    done: Seq<(CellView, T)>,
    row: Seq<Option<CellView>>,
    head: spec_fn(Seq<Option<CellView>>) -> T,
    extend: spec_fn(T, Seq<Option<CellView>>) -> T,
) -> Seq<(CellView, T)> {
    match column(row, 0) {
        Some(node) => if done.len() > 0 && done.last().0 == node {
            done.drop_last().push((node, extend(done.last().1, row)))
        } else {
            done.push((node, extend(head(row), row)))
        },
        None => done,
    }
}

/// The values that rows make, with the node of each.
pub open spec fn grouped<T>(
    rows: Seq<Seq<Option<CellView>>>,
    head: spec_fn(Seq<Option<CellView>>) -> T,
    extend: spec_fn(T, Seq<Option<CellView>>) -> T,
) -> Seq<(CellView, T)>
    decreases rows.len(),
{
    if rows.len() == 0 {
        Seq::empty()
    } else {
        group_step(grouped(rows.drop_last(), head, extend), rows.last(), head, extend)
    }
}

/// The value that the rows of one node make.
pub open spec fn folded<T>(
    rows: Seq<Seq<Option<CellView>>>,
    head: spec_fn(Seq<Option<CellView>>) -> T,
    extend: spec_fn(T, Seq<Option<CellView>>) -> T,
) -> T
    decreases rows.len(),
{
    if rows.len() <= 1 {
        extend(head(rows[0]), rows[0])
    } else {
        extend(folded(rows.drop_last(), head, extend), rows.last())
    }
}

/// The rows of a new node make one value after those before.
pub proof fn lemma_group_run<T>(
    prior: Seq<Seq<Option<CellView>>>,
    rows: Seq<Seq<Option<CellView>>>,
    node: CellView,
    head: spec_fn(Seq<Option<CellView>>) -> T,
    extend: spec_fn(T, Seq<Option<CellView>>) -> T,
)
    requires
        rows.len() > 0,
        forall|k: int| 0 <= k < rows.len() ==> column(#[trigger] rows[k], 0) == Some(node),
        grouped(prior, head, extend).len() > 0 ==> grouped(prior, head, extend).last().0 != node,
    ensures
        grouped(prior + rows, head, extend) == grouped(prior, head, extend).push(
            (node, folded(rows, head, extend)),
        ),
    decreases rows.len(),
{
    let all = prior + rows;
    let done = grouped(prior, head, extend);
    assert(all.last() == rows[rows.len() - 1]);
    if rows.len() == 1 {
        assert(all.drop_last() =~= prior);
    } else {
        let rest = rows.drop_last();
        assert(all.drop_last() =~= prior + rest);
        lemma_group_run(prior, rest, node, head, extend);
        let partial = done.push((node, folded(rest, head, extend)));
        assert(partial.drop_last() =~= done);
    }
}

/// The batch that the first row of its node starts.
pub open spec fn batch_head(row: Seq<Option<CellView>>) -> BatchView {
    BatchView {
        id: text_or_empty(column(row, 1)),
        issuer_pid: text_or_empty(column(row, 2)),
        status: text_or_empty(column(row, 3)),
        holder_pid: text_of(column(row, 4)),
        rejection_reason: text_of(column(row, 5)),
        credentials: Seq::empty(),
    }
}

/// The credential in a row: its type, its format, and the value that its
/// payload's text stands for.
pub open spec fn credential_in(
    ty: Option<CellView>,
    format: Option<CellView>,
    payload: Option<CellView>,
) -> Option<EntryView> {
    match text_of(ty) {
        Some(credential_type) => Some(
            EntryView {
                credential_type,
                format: text_or_empty(format),
                payload: match text_of(payload) {
                    Some(literal) => decoded(literal),
                    None => JsonView::Json("null"@),
                },
            },
        ),
        None => None,
    }
}

/// A batch with the credential in a row added, where there is one.
pub open spec fn batch_extend(b: BatchView, row: Seq<Option<CellView>>) -> BatchView {
    match credential_in(column(row, 7), column(row, 8), column(row, 9)) {
        Some(c) => BatchView { credentials: b.credentials.push(c), ..b },
        None => b,
    }
}

/// The batches that rows make, with their nodes.
pub open spec fn grouped_batches(rows: Seq<Seq<Option<CellView>>>) -> Seq<(CellView, BatchView)> {
    grouped(
        rows,
        |row: Seq<Option<CellView>>| batch_head(row),
        |b: BatchView, row: Seq<Option<CellView>>| batch_extend(b, row),
    )
}

/// The offer that the first row of its node starts.
pub open spec fn offer_head(row: Seq<Option<CellView>>) -> OfferView {
    OfferView {
        id: text_or_empty(column(row, 1)),
        issuer: text_or_empty(column(row, 2)),
        credentials: Seq::empty(),
    }
}

/// An offer with the offered credential in a row added, where there is one.
pub open spec fn offer_extend(b: OfferView, row: Seq<Option<CellView>>) -> OfferView {
    match text_of(column(row, 4)) {
        Some(id) => OfferView {
            credentials: b.credentials.push(
                OfferedView { id, credential_type: text_of(column(row, 5)) },
            ),
            ..b
        },
        None => b,
    }
}

/// The offers that rows make, with their nodes.
pub open spec fn grouped_offers(rows: Seq<Seq<Option<CellView>>>) -> Seq<(CellView, OfferView)> {
    grouped(
        rows,
        |row: Seq<Option<CellView>>| offer_head(row),
        |b: OfferView, row: Seq<Option<CellView>>| offer_extend(b, row),
    )
}

/// The text of a literal or an IRI in column `k`.
fn literal_value(row: &Vec<Option<Cell>>, k: usize) -> (res: Option<String>)
    ensures
        optional_text(res) == text_of(column(row@.map_values(|c: Option<Cell>| cell_view(c)), k as int)),
{
    if k < row.len() {
        match &row[k] {
            Some(Cell::Literal(text)) => Some(text.clone()),
            Some(Cell::Named(iri)) => Some(iri.clone()),
            _ => None,
        }
    } else {
        None
    }
}

/// The text of a literal or an IRI in column `k`, empty where there is none.
fn literal_or_empty(row: &Vec<Option<Cell>>, k: usize) -> (res: String)
    ensures
        res@ == text_or_empty(column(row@.map_values(|c: Option<Cell>| cell_view(c)), k as int)),
{
    match literal_value(row, k) {
        Some(text) => text,
        None => String::new(),
    }
}

/// Whether two cells hold the same term.
fn same_cell(a: &Cell, b: &Cell) -> (res: bool)
    ensures
        res == (a@ == b@),
{
    match (a, b) {
        (Cell::Named(x), Cell::Named(y)) => *x == *y,
        (Cell::Literal(x), Cell::Literal(y)) => *x == *y,
        (Cell::Blank(Some(x)), Cell::Blank(Some(y))) => *x == *y,
        (Cell::Blank(None), Cell::Blank(None)) => true,
        _ => false,
    }
}

/// A copy of a cell.
fn copy_cell(cell: &Cell) -> (res: Cell)
    ensures
        res@ == cell@,
{
    match cell {
        Cell::Named(iri) => Cell::Named(iri.clone()),
        Cell::Blank(id) => Cell::Blank(*id),
        Cell::Literal(text) => Cell::Literal(text.clone()),
    }
}

/// The credential in a row.
fn read_credential(row: &Vec<Option<Cell>>, ty: usize, format: usize, payload: usize) -> (res:
    Option<CredentialEntry>)
    ensures
        ({
            let view = row@.map_values(|c: Option<Cell>| cell_view(c));
            let want = credential_in(
                column(view, ty as int),
                column(view, format as int),
                column(view, payload as int),
            );
            &&& res is Some == want is Some
            &&& res matches Some(c) ==> want == Some(c@)
        }),
{
    match literal_value(row, ty) {
        Some(credential_type) => Some(
            CredentialEntry {
                credential_type,
                format: literal_or_empty(row, format),
                payload: match literal_value(row, payload) {
                    Some(literal) => decode_payload(literal),
                    None => JsonValue::Json(String::from_str("null")),
                },
            },
        ),
        None => None,
    }
}

/// The batches that the rows of an answer make.
pub fn group_batches(rows: &Vec<Vec<Option<Cell>>>) -> (res: Vec<CredentialBatch>)
    ensures
        batches_view(res@) == grouped_batches(rows_view(rows@)).map_values(
            |g: (CellView, BatchView)| g.1,
        ),
{
    let mut nodes: Vec<Cell> = Vec::new();
    let mut out: Vec<CredentialBatch> = Vec::new();
    let mut i: usize = 0;
    while i < rows.len()
        invariant
            i <= rows.len(),
            nodes@.len() == out@.len(),
            grouped_batches(rows_view(rows@).take(i as int)).len() == out@.len(),
            forall|k: int|
                #![trigger out@[k]]
                0 <= k < out@.len() ==> grouped_batches(rows_view(rows@).take(i as int))[k] == (
                    nodes@[k]@,
                    out@[k]@,
                ),
        decreases rows.len() - i,
    {
        let row = &rows[i];
        let ghost all = rows_view(rows@);
        let ghost view = row@.map_values(|c: Option<Cell>| cell_view(c));
        let ghost done = grouped_batches(all.take(i as int));
        proof {
            assert(all[i as int] == view);
            assert(all.take(i + 1).drop_last() =~= all.take(i as int));
            assert(all.take(i + 1).last() == view);
            assert(grouped_batches(all.take(i + 1)) == group_step(
                done,
                view,
                |row: Seq<Option<CellView>>| batch_head(row),
                |b: BatchView, row: Seq<Option<CellView>>| batch_extend(b, row),
            ));
        }
        if row.len() > 0 {
            if let Some(node) = &row[0] {
                let n: usize = out.len();
                let fresh = n == 0 || !same_cell(&nodes[n - 1], node);
                proof {
                    assert(column(view, 0) == Some(node@));
                    if n > 0 {
                        assert(done.last() == (nodes@[n - 1]@, out@[n - 1]@));
                    }
                }
                if fresh {
                    nodes.push(copy_cell(node));
                    out.push(
                        CredentialBatch {
                            id: literal_or_empty(row, 1),
                            issuer_pid: literal_or_empty(row, 2),
                            holder_pid: literal_value(row, 4),
                            status: literal_or_empty(row, 3),
                            rejection_reason: literal_value(row, 5),
                            credentials: Vec::new(),
                        },
                    );
                    proof {
                        assert(out@.last()@.credentials =~= Seq::empty());
                        assert(out@.last()@ == batch_head(view));
                    }
                }
                let ghost base = out@.last()@;
                if let Some(credential) = read_credential(row, 7, 8, 9) {
                    let last: usize = out.len() - 1;
                    let ghost was = out@[last as int].credentials@;
                    out[last].credentials.push(credential);
                    proof {
                        assert(entries_view(was.push(credential)) =~= entries_view(was).push(
                            credential@,
                        ));
                    }
                }
                proof {
                    assert(out@.last()@ == batch_extend(base, view));
                }
            }
        }
        i = i + 1;
    }
    proof {
        let all = rows_view(rows@);
        assert(all.take(i as int) =~= all);
        assert(batches_view(out@) =~= grouped_batches(all).map_values(
            |g: (CellView, BatchView)| g.1,
        ));
    }
    out
}

/// The offers that the rows of an answer make.
pub fn group_offers(rows: &Vec<Vec<Option<Cell>>>) -> (res: Vec<AcceptedOffer>)
    ensures
        offers_view(res@) == grouped_offers(rows_view(rows@)).map_values(
            |g: (CellView, OfferView)| g.1,
        ),
{
    let mut nodes: Vec<Cell> = Vec::new();
    let mut out: Vec<AcceptedOffer> = Vec::new();
    let mut i: usize = 0;
    while i < rows.len()
        invariant
            i <= rows.len(),
            nodes@.len() == out@.len(),
            grouped_offers(rows_view(rows@).take(i as int)).len() == out@.len(),
            forall|k: int|
                #![trigger out@[k]]
                0 <= k < out@.len() ==> grouped_offers(rows_view(rows@).take(i as int))[k] == (
                    nodes@[k]@,
                    out@[k]@,
                ),
        decreases rows.len() - i,
    {
        let row = &rows[i];
        let ghost all = rows_view(rows@);
        let ghost view = row@.map_values(|c: Option<Cell>| cell_view(c));
        let ghost done = grouped_offers(all.take(i as int));
        proof {
            assert(all[i as int] == view);
            assert(all.take(i + 1).drop_last() =~= all.take(i as int));
            assert(all.take(i + 1).last() == view);
            assert(grouped_offers(all.take(i + 1)) == group_step(
                done,
                view,
                |row: Seq<Option<CellView>>| offer_head(row),
                |b: OfferView, row: Seq<Option<CellView>>| offer_extend(b, row),
            ));
        }
        if row.len() > 0 {
            if let Some(node) = &row[0] {
                let n: usize = out.len();
                let fresh = n == 0 || !same_cell(&nodes[n - 1], node);
                proof {
                    assert(column(view, 0) == Some(node@));
                    if n > 0 {
                        assert(done.last() == (nodes@[n - 1]@, out@[n - 1]@));
                    }
                }
                if fresh {
                    nodes.push(copy_cell(node));
                    out.push(
                        AcceptedOffer {
                            id: literal_or_empty(row, 1),
                            issuer: literal_or_empty(row, 2),
                            credentials: Vec::new(),
                        },
                    );
                    proof {
                        assert(out@.last()@.credentials =~= Seq::empty());
                        assert(out@.last()@ == offer_head(view));
                    }
                }
                let ghost base = out@.last()@;
                if let Some(id) = literal_value(row, 4) {
                    let offered = OfferedCredential { id, credential_type: literal_value(row, 5) };
                    let last: usize = out.len() - 1;
                    let ghost was = out@[last as int].credentials@;
                    out[last].credentials.push(offered);
                    proof {
                        assert(offered_view(was.push(offered)) =~= offered_view(was).push(offered@));
                    }
                }
                proof {
                    assert(out@.last()@ == offer_extend(base, view));
                }
            }
        }
        i = i + 1;
    }
    proof {
        let all = rows_view(rows@);
        assert(all.take(i as int) =~= all);
        assert(offers_view(out@) =~= grouped_offers(all).map_values(
            |g: (CellView, OfferView)| g.1,
        ));
    }
    out
}

/// The credentials among the rows whose type is wanted, row by row.
pub open spec fn selected(
    rows: Seq<Seq<Option<CellView>>>,
    types: Seq<Seq<char>>,
) -> Seq<EntryView>
    decreases rows.len(),
{
    if rows.len() == 0 {
        Seq::empty()
    } else {
        let done = selected(rows.drop_last(), types);
        let row = rows.last();
        match credential_in(column(row, 0), column(row, 1), column(row, 2)) {
            Some(c) => if types.contains(c.credential_type) {
                done.push(c)
            } else {
                done
            },
            None => done,
        }
    }
}

/// The credentials among the rows of an answer whose type is one of `types`.
pub fn select_credentials(rows: &Vec<Vec<Option<Cell>>>, types: &Vec<String>) -> (res: Vec<
    CredentialEntry,
>)
    ensures
        entries_view(res@) == selected(rows_view(rows@), texts(types@)),
{
    let mut out: Vec<CredentialEntry> = Vec::new();
    let mut i: usize = 0;
    while i < rows.len()
        invariant
            i <= rows.len(),
            entries_view(out@) == selected(rows_view(rows@).take(i as int), texts(types@)),
        decreases rows.len() - i,
    {
        let row = &rows[i];
        let ghost all = rows_view(rows@);
        let ghost view = row@.map_values(|c: Option<Cell>| cell_view(c));
        proof {
            assert(all[i as int] == view);
            assert(all.take(i + 1).drop_last() =~= all.take(i as int));
            assert(all.take(i + 1).last() == view);
        }
        if let Some(credential) = read_credential(row, 0, 1, 2) {
            if contains_text(types, credential.credential_type.as_str()) {
                proof {
                    assert(entries_view(out@.push(credential)) =~= entries_view(out@).push(
                        credential@,
                    ));
                }
                out.push(credential);
            }
        }
        i = i + 1;
    }
    proof {
        assert(rows_view(rows@).take(i as int) =~= rows_view(rows@));
    }
    out
}

} // verus!

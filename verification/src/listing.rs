use vstd::prelude::*;

use serde_json::Value;
use tabprinter::Table;

use crate::grid::{add_column, add_row, new_table, table_alignments, table_headers, table_rows, ColumnAlign, TableLook};
use crate::json_query::{json_document_text, json_path_parses, json_query, query_json_path};
use crate::name_map::NameMap;
use crate::printers::{pod_columns, shown_columns, shown_in, PrinterColumn, PrinterColumnView, PrinterColumns};
use crate::text::{join_spec, join_with, str_equal};

verus! {

/// Why a listing could not be laid out.
#[derive(Debug)]
pub enum ListingError {
    /// The JSONPath of a shown column is not a valid query.
    InvalidJsonPath(String),
}

/// The text put between the values that one query finds.
pub open spec fn cell_separator() -> Seq<char> {
    seq![',', ' ']
}

/// A data cell: the values that the column's JSONPath finds in the object, joined by `", "`.
pub open spec fn listing_cell(path: Seq<char>, document: Value) -> Seq<char> {
    join_spec(json_query(path, json_document_text(document)), cell_separator())
}

/// The data cells of an object's row, one per shown column.
pub open spec fn data_cells(shown: Seq<PrinterColumnView>, document: Value) -> Seq<Seq<char>> {
    shown.map_values(|c: PrinterColumnView| listing_cell(c.json_path, document))
}

/// An object's row: the context cell, then its data cells.
pub open spec fn listing_row(first: Seq<char>, shown: Seq<PrinterColumnView>, document: Value) -> Seq<Seq<char>> {
    seq![first] + data_cells(shown, document)
}

/// The rows of one context: one per object, in the order of its list, the
/// context's name in the first row's context cell and blank in the others.
pub open spec fn context_rows(name: Seq<char>, items: Seq<Value>, shown: Seq<PrinterColumnView>) -> Seq<Seq<Seq<char>>> {
    Seq::new(
        items.len(),
        |j: int| listing_row(if j == 0 { name } else { Seq::<char>::empty() }, shown, items[j]),
    )
}

/// All rows of a listing, context after context in the order of `names`.
pub open spec fn listing_rows(
    names: Seq<Seq<char>>,
    m: Map<Seq<char>, Vec<Value>>,
    shown: Seq<PrinterColumnView>,
) -> Seq<Seq<Seq<char>>>
    decreases names.len(),
{
    if names.len() == 0 {
        Seq::<Seq<Seq<char>>>::empty()
    } else {
        listing_rows(names.drop_last(), m, shown) + context_rows(names.last(), m[names.last()]@, shown)
    }
}

/// The context cells of the rows of one context: its name on the first row, blank after.
pub open spec fn context_block(name: Seq<char>, n: nat) -> Seq<Seq<char>> {
    Seq::new(n, |j: int| if j == 0 { name } else { Seq::<char>::empty() })
}

/// The first cell of every row, context after context in the order of `names`.
pub open spec fn context_cells<T>(names: Seq<Seq<char>>, m: Map<Seq<char>, Vec<T>>) -> Seq<Seq<char>>
    decreases names.len(),
{
    if names.len() == 0 {
        Seq::<Seq<char>>::empty()
    } else {
        context_cells(names.drop_last(), m) + context_block(names.last(), m[names.last()]@.len())
    }
}

/// Whether some context has something to list.
pub open spec fn has_items<T>(names: Seq<Seq<char>>, m: Map<Seq<char>, Vec<T>>) -> bool {
    exists|i: int| 0 <= i < names.len() && (#[trigger] m[names[i]])@.len() > 0
}

/// Every one of `n` columns aligned to the left.
pub open spec fn left_aligned(n: nat) -> Seq<ColumnAlign> {
    Seq::new(n, |i: int| ColumnAlign::Left)
}

/// The headings of a listing: the context, then the shown columns.
pub open spec fn listing_headers(cols: Seq<PrinterColumnView>, wide: bool) -> Seq<Seq<char>> {
    seq!["context"@] + shown_columns(cols, wide).map_values(|c: PrinterColumnView| c.name)
}

/// Whether the JSONPath of shown column `i` is the first one that does not parse.
pub open spec fn first_invalid_path(shown: Seq<PrinterColumnView>, i: int) -> bool {
    &&& 0 <= i < shown.len()
    &&& !json_path_parses(shown[i].json_path)
    &&& forall|j: int| 0 <= j < i ==> json_path_parses(#[trigger] shown[j].json_path)
}

proof fn lemma_shown_columns_step(cols: Seq<PrinterColumnView>, wide: bool, i: int)
    requires
        0 <= i < cols.len(),
    ensures
        shown_columns(cols.take(i + 1), wide) == if shown_in(cols[i], wide) {
            shown_columns(cols.take(i), wide).push(cols[i])
        } else {
            shown_columns(cols.take(i), wide)
        },
{
    assert(cols.take(i + 1).drop_last() =~= cols.take(i));
    assert(cols.take(i + 1).last() == cols[i]);
}

/// The places of the columns that a listing shows, in order.
fn shown_places(columns: &PrinterColumns, wide: bool) -> (places: Vec<usize>)
    ensures
        forall|k: int| 0 <= k < places@.len() ==> places@[k] < columns@.len(),
        places@.map_values(|p: usize| columns@[p as int]) == shown_columns(columns@, wide),
{
    let mut places: Vec<usize> = Vec::new();
    let mut i: usize = 0;
    assert(columns@.take(0) =~= Seq::<PrinterColumnView>::empty());
    assert(places@.map_values(|p: usize| columns@[p as int]) =~= Seq::<PrinterColumnView>::empty());
    while i < columns.columns.len()
        invariant
            i <= columns@.len(),
            columns@.len() == columns.columns@.len(),
            forall|k: int| 0 <= k < places@.len() ==> places@[k] < i,
            places@.map_values(|p: usize| columns@[p as int]) == shown_columns(columns@.take(i as int), wide),
        decreases columns.columns@.len() - i,
    {
        proof {
            lemma_shown_columns_step(columns@, wide, i as int);
        }
        let c: &PrinterColumn = &columns.columns[i];
        assert(c@ == columns@[i as int]);
        let show = if wide {
            c.priority > 0
        } else {
            c.priority == 0
        };
        if show {
            let ghost before = places@.map_values(|p: usize| columns@[p as int]);
            places.push(i);
            assert(places@.map_values(|p: usize| columns@[p as int]) =~= before.push(columns@[i as int]));
        }
        i = i + 1;
    }
    assert(columns@.take(i as int) =~= columns@);
    places
}

proof fn lemma_context_cells_step<T>(names: Seq<Seq<char>>, m: Map<Seq<char>, Vec<T>>, i: int)
    requires
        0 <= i < names.len(),
    ensures
        context_cells(names.take(i + 1), m) == context_cells(names.take(i), m) + context_block(
            names[i],
            m[names[i]]@.len(),
        ),
{
    assert(names.take(i + 1).drop_last() =~= names.take(i));
    assert(names.take(i + 1).last() == names[i]);
}

proof fn lemma_context_block_step(name: Seq<char>, j: nat)
    ensures
        context_block(name, j + 1) == context_block(name, j).push(
            if j == 0 { name } else { Seq::<char>::empty() },
        ),
{
    assert(context_block(name, j + 1) =~= context_block(name, j).push(
        if j == 0 { name } else { Seq::<char>::empty() },
    ));
}

proof fn lemma_listing_rows_step(
    names: Seq<Seq<char>>,
    m: Map<Seq<char>, Vec<Value>>,
    shown: Seq<PrinterColumnView>,
    i: int,
)
    requires
        0 <= i < names.len(),
    ensures
        listing_rows(names.take(i + 1), m, shown) == listing_rows(names.take(i), m, shown) + context_rows(
            names[i],
            m[names[i]]@,
            shown,
        ),
{
    assert(names.take(i + 1).drop_last() =~= names.take(i));
    assert(names.take(i + 1).last() == names[i]);
}

proof fn lemma_context_rows_step(name: Seq<char>, items: Seq<Value>, shown: Seq<PrinterColumnView>, j: int)
    requires
        0 <= j < items.len(),
    ensures
        context_rows(name, items.take(j + 1), shown) == context_rows(name, items.take(j), shown).push(
            listing_row(if j == 0 { name } else { Seq::<char>::empty() }, shown, items[j]),
        ),
{
    assert(context_rows(name, items.take(j + 1), shown) =~= context_rows(name, items.take(j), shown).push(
        listing_row(if j == 0 { name } else { Seq::<char>::empty() }, shown, items[j]),
    ));
}

proof fn lemma_data_cells_step(shown: Seq<PrinterColumnView>, document: Value, c: int)
    requires
        0 <= c < shown.len(),
    ensures
        data_cells(shown.take(c + 1), document) == data_cells(shown.take(c), document).push(
            listing_cell(shown[c].json_path, document),
        ),
{
    assert(data_cells(shown.take(c + 1), document) =~= data_cells(shown.take(c), document).push(
        listing_cell(shown[c].json_path, document),
    ));
}

/// Lays out `resources` as a table: one row per listed object, context after
/// context in the order of their names and, within a context, in the order of
/// its list; the context's name on its first row only; then, for each shown
/// column, the values that its JSONPath finds in the object, joined by `", "`.
/// The first shown column whose JSONPath is not a valid query stops the layout,
/// as soon as there is an object to query.
pub fn build_listing(resources: &NameMap<Vec<Value>>, columns: &PrinterColumns, wide: bool) -> (res: Result<
    Table,
    ListingError,
>)
    ensures
        res is Err <==> has_items(resources.key_list(), resources@) && exists|i: int|
            first_invalid_path(shown_columns(columns@, wide), i),
        res matches Err(ListingError::InvalidJsonPath(p)) ==> exists|i: int|
            first_invalid_path(shown_columns(columns@, wide), i) && p@ == shown_columns(columns@, wide)[i].json_path,
        res matches Ok(t) ==> {
            &&& table_headers(t) == listing_headers(columns@, wide)
            &&& table_alignments(t) == left_aligned(listing_headers(columns@, wide).len())
            &&& table_rows(t) == listing_rows(resources.key_list(), resources@, shown_columns(columns@, wide))
            &&& table_headers(t).len() == shown_columns(columns@, wide).len() + 1
            &&& table_headers(t)[0] == "context"@
            &&& forall|k: int|
                1 <= k <= shown_columns(columns@, wide).len() ==> #[trigger] table_headers(t)[k] == shown_columns(
                    columns@,
                    wide,
                )[k - 1].name
            &&& table_rows(t).len() == listed_documents(resources.key_list(), resources@).len()
            &&& forall|r: int|
                0 <= r < table_rows(t).len() ==> (#[trigger] table_rows(t)[r]).len() == shown_columns(columns@, wide).len()
                    + 1
            &&& forall|r: int, k: int|
                0 <= r < table_rows(t).len() && 1 <= k <= shown_columns(columns@, wide).len() ==> #[trigger] table_rows(
                    t,
                )[r][k] == join_spec(
                    json_query(
                        shown_columns(columns@, wide)[k - 1].json_path,
                        json_document_text(listed_documents(resources.key_list(), resources@)[r]),
                    ),
                    seq![',', ' '],
                )
        },
{
    let ghost shown = shown_columns(columns@, wide);
    let places = shown_places(columns, wide);
    let ghost names = resources.key_list();
    let ghost m = resources@;
    proof {
        assert forall|k: int| 0 <= k < places@.len() implies #[trigger] shown[k] == columns@[places@[k] as int] by {
            assert(places@.map_values(|p: usize| columns@[p as int])[k] == columns@[places@[k] as int]);
        }
    }
    // headings
    let mut table = new_table(TableLook::Neon);
    add_column(&mut table, "context", ColumnAlign::Left);
    let mut k: usize = 0;
    assert(table_alignments(table) =~= left_aligned(1));
    assert(table_headers(table) =~= seq!["context"@] + shown.take(0).map_values(
        |c: PrinterColumnView| c.name,
    ));
    while k < places.len()
        invariant
            k <= places@.len(),
            places@.len() == shown.len(),
            forall|q: int| 0 <= q < places@.len() ==> places@[q] < columns@.len(),
            forall|q: int| 0 <= q < places@.len() ==> #[trigger] shown[q] == columns@[places@[q] as int],
            columns@.len() == columns.columns@.len(),
            table_headers(table) == seq!["context"@] + shown.take(k as int).map_values(
                |c: PrinterColumnView| c.name,
            ),
            table_rows(table) == Seq::<Seq<Seq<char>>>::empty(),
            table_alignments(table) == left_aligned((k + 1) as nat),
        decreases places@.len() - k,
    {
        let c: &PrinterColumn = &columns.columns[places[k]];
        assert(c@ == shown[k as int]);
        add_column(&mut table, c.name.as_str(), ColumnAlign::Left);
        assert(table_alignments(table) =~= left_aligned((k + 2) as nat));
        assert(shown.take(k + 1).map_values(|c: PrinterColumnView| c.name) =~= shown.take(
            k as int,
        ).map_values(|c: PrinterColumnView| c.name).push(shown[k as int].name));
        assert(seq!["context"@] + shown.take(k + 1).map_values(|c: PrinterColumnView| c.name) =~= (
        seq!["context"@] + shown.take(k as int).map_values(|c: PrinterColumnView| c.name)).push(
            shown[k as int].name,
        ));
        k = k + 1;
    }
    assert(shown.take(k as int) =~= shown);
    // the rows
    proof {
        reveal_strlit(", ");
    }
    let count = resources.len();
    let mut i: usize = 0;
    assert(names.take(0) =~= Seq::<Seq<char>>::empty());
    while i < count
        invariant
            i <= count,
            count == names.len(),
            names == resources.key_list(),
            m == resources@,
            shown == shown_columns(columns@, wide),
            places@.len() == shown.len(),
            forall|q: int| 0 <= q < places@.len() ==> places@[q] < columns@.len(),
            forall|q: int| 0 <= q < places@.len() ==> #[trigger] shown[q] == columns@[places@[q] as int],
            columns@.len() == columns.columns@.len(),
            ", "@ == cell_separator(),
            table_headers(table) == listing_headers(columns@, wide),
            table_headers(table).len() == shown.len() + 1,
            table_alignments(table) == left_aligned((shown.len() + 1) as nat),
            table_rows(table) == listing_rows(names.take(i as int), m, shown),
            table_rows(table).len() > 0 ==> forall|q: int|
                0 <= q < shown.len() ==> json_path_parses(#[trigger] shown[q].json_path),
            (exists|q: int| 0 <= q < i && (#[trigger] m[names[q]])@.len() > 0) ==> table_rows(table).len() > 0,
        decreases count - i,
    {
        let name = resources.key_at(i);
        let items = resources.value_at(i);
        let mut j: usize = 0;
        assert(items@.take(0) =~= Seq::<Value>::empty());
        assert(listing_rows(names.take(i as int), m, shown) + context_rows(names[i as int], items@.take(0), shown)
            =~= listing_rows(names.take(i as int), m, shown));
        while j < items.len()
            invariant
                i < count,
                count == names.len(),
                names == resources.key_list(),
                m == resources@,
                shown == shown_columns(columns@, wide),
                places@.len() == shown.len(),
                forall|q: int| 0 <= q < places@.len() ==> places@[q] < columns@.len(),
                forall|q: int| 0 <= q < places@.len() ==> #[trigger] shown[q] == columns@[places@[q] as int],
                columns@.len() == columns.columns@.len(),
                name@ == names[i as int],
                *items == m[names[i as int]],
                j <= items@.len(),
                ", "@ == cell_separator(),
                table_headers(table) == listing_headers(columns@, wide),
                table_headers(table).len() == shown.len() + 1,
            table_alignments(table) == left_aligned((shown.len() + 1) as nat),
                table_rows(table) == listing_rows(names.take(i as int), m, shown) + context_rows(
                    names[i as int],
                    items@.take(j as int),
                    shown,
                ),
                table_rows(table).len() > 0 ==> forall|q: int|
                    0 <= q < shown.len() ==> json_path_parses(#[trigger] shown[q].json_path),
                (exists|q: int| 0 <= q < i && (#[trigger] m[names[q]])@.len() > 0) ==> table_rows(table).len() > 0,
                j > 0 ==> table_rows(table).len() > 0,
            decreases items@.len() - j,
        {
            let mut row: Vec<String> = Vec::new();
            if j == 0 {
                row.push(name.clone());
            } else {
                row.push(String::new());
            }
            let ghost first = if j == 0 { names[i as int] } else { Seq::<char>::empty() };
            let ghost document = items@[j as int];
            assert(row@.map_values(|s: String| s@) =~= seq![first] + data_cells(shown.take(0), document));
            let mut c: usize = 0;
            while c < places.len()
                invariant
                    c <= places@.len(),
                    places@.len() == shown.len(),
                    forall|q: int| 0 <= q < places@.len() ==> places@[q] < columns@.len(),
                    forall|q: int| 0 <= q < places@.len() ==> #[trigger] shown[q] == columns@[places@[q] as int],
                    columns@.len() == columns.columns@.len(),
                    j < items@.len(),
                    i < count,
                    count == names.len(),
                    names == resources.key_list(),
                    m == resources@,
                    *items == m[names[i as int]],
                    document == items@[j as int],
                    shown == shown_columns(columns@, wide),
                    table_alignments(table) == left_aligned((shown.len() + 1) as nat),
                    table_rows(table).len() > 0 ==> forall|q: int|
                        0 <= q < shown.len() ==> json_path_parses(#[trigger] shown[q].json_path),
                    ", "@ == cell_separator(),
                    row@.map_values(|s: String| s@) == seq![first] + data_cells(shown.take(c as int), document),
                    forall|q: int| 0 <= q < c ==> json_path_parses(#[trigger] shown[q].json_path),
                decreases places@.len() - c,
            {
                let column: &PrinterColumn = &columns.columns[places[c]];
                assert(column@ == shown[c as int]);
                match query_json_path(column.json_path.as_str(), &items[j]) {
                    Ok(nodes) => {
                        let cell = join_with(&nodes, ", ");
                        let ghost before = row@.map_values(|s: String| s@);
                        row.push(cell);
                        proof {
                            lemma_data_cells_step(shown, document, c as int);
                            assert(row@.map_values(|s: String| s@) =~= before.push(cell@));
                            assert(seq![first] + data_cells(shown.take(c + 1), document) =~= (seq![first]
                                + data_cells(shown.take(c as int), document)).push(
                                listing_cell(shown[c as int].json_path, document),
                            ));
                        }
                    },
                    Err(_) => {
                        let bad = column.json_path.clone();
                        proof {
                            assert(column.json_path@ == shown[c as int].json_path);
                            assert(!json_path_parses(shown[c as int].json_path));
                            assert(table_rows(table).len() == 0);
                            assert(bad@ == shown[c as int].json_path);
                            assert(first_invalid_path(shown, c as int));
                            assert(has_items(names, m)) by {
                                assert(m[names[i as int]]@.len() > 0);
                            }
                        }
                        return Err(ListingError::InvalidJsonPath(bad));
                    },
                }
                c = c + 1;
            }
            assert(shown.take(c as int) =~= shown);
            let ghost before = table_rows(table);
            add_row(&mut table, &row);
            proof {
                lemma_context_rows_step(names[i as int], items@, shown, j as int);
                assert(items@.take(j + 1) =~= items@.take(j as int).push(items@[j as int]));
                assert(table_rows(table) =~= listing_rows(names.take(i as int), m, shown) + context_rows(
                    names[i as int],
                    items@.take(j + 1),
                    shown,
                ));
            }
            j = j + 1;
        }
        proof {
            assert(items@.take(j as int) =~= items@);
            lemma_listing_rows_step(names, m, shown, i as int);
            if exists|q: int| 0 <= q < i + 1 && (#[trigger] m[names[q]])@.len() > 0 {
                let q = choose|q: int| 0 <= q < i + 1 && (#[trigger] m[names[q]])@.len() > 0;
                if q == i {
                    assert(j > 0);
                }
            }
        }
        i = i + 1;
    }
    assert(names.take(count as int) =~= names);
    proof {
        if has_items(names, m) {
            let q = choose|q: int| 0 <= q < names.len() && (#[trigger] m[names[q]])@.len() > 0;
            assert(0 <= q < i && m[names[q]]@.len() > 0);
        }
    }
    proof {
        law_listing_cells(names, m, shown);
        law_listing_headings(columns@, wide);
    }
    Ok(table)
}

} // verus!

verus! {

/// Lays out the listing of the `tab` and `wide` outputs: pod columns, the wide
/// ones when `output` is `"wide"` and the normal ones otherwise.
pub fn tab_list_printer(resources: &NameMap<Vec<Value>>, output: &str) -> (res: Result<Table, ListingError>)
    ensures
        ({
            let shown = shown_columns(pod_columns(), output@ == "wide"@);
            &&& res is Err <==> has_items(resources.key_list(), resources@) && exists|i: int|
                first_invalid_path(shown, i)
            &&& res matches Err(ListingError::InvalidJsonPath(p)) ==> exists|i: int|
                first_invalid_path(shown, i) && p@ == shown[i].json_path
            &&& res matches Ok(t) ==> {
                &&& table_headers(t) == listing_headers(pod_columns(), output@ == "wide"@)
                &&& table_alignments(t) == left_aligned(listing_headers(pod_columns(), output@ == "wide"@).len())
                &&& table_rows(t) == listing_rows(resources.key_list(), resources@, shown)
                &&& table_headers(t).len() == shown.len() + 1
                &&& table_headers(t)[0] == "context"@
                &&& forall|k: int| 1 <= k <= shown.len() ==> #[trigger] table_headers(t)[k] == shown[k - 1].name
                &&& table_rows(t).len() == listed_documents(resources.key_list(), resources@).len()
                &&& forall|r: int| 0 <= r < table_rows(t).len() ==> (#[trigger] table_rows(t)[r]).len() == shown.len() + 1
                &&& forall|r: int, k: int|
                    0 <= r < table_rows(t).len() && 1 <= k <= shown.len() ==> #[trigger] table_rows(t)[r][k]
                        == join_spec(
                        json_query(
                            shown[k - 1].json_path,
                            json_document_text(listed_documents(resources.key_list(), resources@)[r]),
                        ),
                        seq![',', ' '],
                    )
            }
        }),
{
    let printer = PrinterColumns::pods();
    let wide = str_equal(output, "wide");
    build_listing(resources, &printer, wide)
}

/// The first cell of each row of a listing is its context cell.
pub proof fn law_listing_first_cells(
    names: Seq<Seq<char>>,
    m: Map<Seq<char>, Vec<Value>>,
    shown: Seq<PrinterColumnView>,
)
    ensures
        listing_rows(names, m, shown).map_values(|r: Seq<Seq<char>>| r[0]) == context_cells(names, m),
    decreases names.len(),
{
    if names.len() > 0 {
        law_listing_first_cells(names.drop_last(), m, shown);
        let front = listing_rows(names.drop_last(), m, shown);
        let block = context_rows(names.last(), m[names.last()]@, shown);
        assert(block.map_values(|r: Seq<Seq<char>>| r[0]) =~= context_block(names.last(), m[names.last()]@.len()));
        assert((front + block).map_values(|r: Seq<Seq<char>>| r[0]) =~= front.map_values(|r: Seq<Seq<char>>| r[0])
            + block.map_values(|r: Seq<Seq<char>>| r[0]));
    }
}

/// Every row of a listing has one cell per heading.
pub proof fn law_rows_fill_headings(
    names: Seq<Seq<char>>,
    m: Map<Seq<char>, Vec<Value>>,
    cols: Seq<PrinterColumnView>,
    wide: bool,
)
    ensures
        forall|r: int|
            0 <= r < listing_rows(names, m, shown_columns(cols, wide)).len() ==> (#[trigger] listing_rows(
                names,
                m,
                shown_columns(cols, wide),
            )[r]).len() == listing_headers(cols, wide).len(),
    decreases names.len(),
{
    let shown = shown_columns(cols, wide);
    if names.len() > 0 {
        law_rows_fill_headings(names.drop_last(), m, cols, wide);
        let front = listing_rows(names.drop_last(), m, shown);
        let block = context_rows(names.last(), m[names.last()]@, shown);
        assert forall|r: int| 0 <= r < (front + block).len() implies (#[trigger] (front + block)[r]).len()
            == listing_headers(cols, wide).len() by {
            if r >= front.len() {
                assert((front + block)[r] == block[r - front.len()]);
            } else {
                assert((front + block)[r] == front[r]);
            }
        }
    }
}

} // verus!

verus! {

/// The number of objects listed under `names`.
pub open spec fn item_count<T>(names: Seq<Seq<char>>, m: Map<Seq<char>, Vec<T>>) -> nat
    decreases names.len(),
{
    if names.len() == 0 {
        0
    } else {
        item_count(names.drop_last(), m) + m[names.last()]@.len()
    }
}

/// A listing has one row per listed object.
pub proof fn law_one_row_per_object<T>(names: Seq<Seq<char>>, m: Map<Seq<char>, Vec<T>>)
    ensures
        context_cells(names, m).len() == item_count(names, m),
    decreases names.len(),
{
    if names.len() > 0 {
        law_one_row_per_object(names.drop_last(), m);
    }
}

/// Every column is shown by exactly one of the two listings (`tab` and `wide`),
/// so between them they show each column once.
pub proof fn law_listings_split_columns(cols: Seq<PrinterColumnView>)
    ensures
        forall|i: int| 0 <= i < cols.len() ==> shown_in(#[trigger] cols[i], false) != shown_in(cols[i], true),
        shown_columns(cols, false).len() + shown_columns(cols, true).len() == cols.len(),
    decreases cols.len(),
{
    if cols.len() > 0 {
        law_listings_split_columns(cols.drop_last());
    }
}

} // verus!

verus! {

/// How many of `cells` hold exactly `text`.
pub open spec fn count_cells(cells: Seq<Seq<char>>, text: Seq<char>) -> nat
    decreases cells.len(),
{
    if cells.len() == 0 {
        0
    } else {
        count_cells(cells.drop_last(), text) + if cells.last() == text { 1nat } else { 0nat }
    }
}

proof fn lemma_count_cells_concat(a: Seq<Seq<char>>, b: Seq<Seq<char>>, text: Seq<char>)
    ensures
        count_cells(a + b, text) == count_cells(a, text) + count_cells(b, text),
    decreases b.len(),
{
    if b.len() == 0 {
        assert(a + b =~= a);
    } else {
        assert((a + b).drop_last() =~= a + b.drop_last());
        lemma_count_cells_concat(a, b.drop_last(), text);
    }
}

proof fn lemma_count_context_block(name: Seq<char>, n: nat, text: Seq<char>)
    requires
        text.len() > 0,
    ensures
        count_cells(context_block(name, n), text) == if name == text && n > 0 { 1nat } else { 0nat },
    decreases n,
{
    if n > 0 {
        let m = (n - 1) as nat;
        lemma_context_block_step(name, m);
        assert(context_block(name, n).drop_last() =~= context_block(name, m));
        lemma_count_context_block(name, m, text);
    }
}

/// In a listing, a context that has objects is named on exactly one row, and
/// no other row carries its name.
pub proof fn law_context_named_once<T>(names: Seq<Seq<char>>, m: Map<Seq<char>, Vec<T>>, name: Seq<char>)
    requires
        crate::name_map::keys_increasing(names),
        name.len() > 0,
    ensures
        count_cells(context_cells(names, m), name) == if names.contains(name) && m[name]@.len() > 0 {
            1nat
        } else {
            0nat
        },
    decreases names.len(),
{
    if names.len() > 0 {
        let front = names.drop_last();
        assert(crate::name_map::keys_increasing(front)) by {
            assert forall|i: int, j: int| 0 <= i < j < front.len() implies crate::text::seq_less(
                #[trigger] front[i],
                #[trigger] front[j],
            ) by {
                assert(front[i] == names[i] && front[j] == names[j]);
            }
        }
        law_context_named_once(front, m, name);
        lemma_count_cells_concat(context_cells(front, m), context_block(names.last(), m[names.last()]@.len()), name);
        lemma_count_context_block(names.last(), m[names.last()]@.len(), name);
        if names.last() == name && front.contains(name) {
            let i = choose|i: int| 0 <= i < front.len() && front[i] == name;
            assert(crate::text::seq_less(names[i], names[names.len() - 1]));
            crate::text::lemma_seq_less_irreflexive(name);
        }
        if names.contains(name) && names.last() != name {
            let i = choose|i: int| 0 <= i < names.len() && names[i] == name;
            assert(front[i] == name);
        }
        if front.contains(name) {
            let i = choose|i: int| 0 <= i < front.len() && front[i] == name;
            assert(names[i] == name);
        }
        if names.last() == name {
            assert(names[names.len() - 1] == name);
        }
    }
}

} // verus!

verus! {

/// The listed objects in the order of the rows: context after context in the
/// order of `names`, each context's list in its order.
pub open spec fn listed_documents(names: Seq<Seq<char>>, m: Map<Seq<char>, Vec<Value>>) -> Seq<Value>
    decreases names.len(),
{
    if names.len() == 0 {
        Seq::<Value>::empty()
    } else {
        listed_documents(names.drop_last(), m) + m[names.last()]@
    }
}

/// Each row of a listing belongs to one listed object, in order, and has one
/// cell per shown column after the context cell: cell `k` holds every node that
/// shown column `k - 1`'s JSONPath selects in that object, written as JSON and
/// joined by `", "`.
pub proof fn law_listing_cells(names: Seq<Seq<char>>, m: Map<Seq<char>, Vec<Value>>, shown: Seq<PrinterColumnView>)
    ensures
        listing_rows(names, m, shown).len() == listed_documents(names, m).len(),
        forall|r: int|
            0 <= r < listing_rows(names, m, shown).len() ==> (#[trigger] listing_rows(names, m, shown)[r]).len()
                == shown.len() + 1,
        forall|r: int, k: int|
            0 <= r < listing_rows(names, m, shown).len() && 1 <= k <= shown.len() ==> #[trigger] listing_rows(
                names,
                m,
                shown,
            )[r][k] == join_spec(
                json_query(shown[k - 1].json_path, json_document_text(listed_documents(names, m)[r])),
                seq![',', ' '],
            ),
    decreases names.len(),
{
    if names.len() > 0 {
        let front_names = names.drop_last();
        law_listing_cells(front_names, m, shown);
        let front = listing_rows(front_names, m, shown);
        let items = m[names.last()]@;
        let block = context_rows(names.last(), items, shown);
        let rows = listing_rows(names, m, shown);
        let docs = listed_documents(names, m);
        assert(rows == front + block);
        assert(docs == listed_documents(front_names, m) + items);
        assert forall|r: int| 0 <= r < rows.len() implies (#[trigger] rows[r]).len() == shown.len() + 1 by {
            if r >= front.len() {
                assert(rows[r] == block[r - front.len()]);
            } else {
                assert(rows[r] == front[r]);
            }
        }
        assert forall|r: int, k: int| 0 <= r < rows.len() && 1 <= k <= shown.len() implies #[trigger] rows[r][k]
            == join_spec(json_query(shown[k - 1].json_path, json_document_text(docs[r])), seq![',', ' ']) by {
            if r >= front.len() {
                let j = r - front.len();
                assert(rows[r] == block[j]);
                assert(docs[r] == items[j]);
                let first = if j == 0 { names.last() } else { Seq::<char>::empty() };
                assert(block[j] == listing_row(first, shown, items[j]));
                assert(listing_row(first, shown, items[j])[k] == data_cells(shown, items[j])[k - 1]);
            } else {
                assert(rows[r] == front[r]);
                assert(docs[r] == listed_documents(front_names, m)[r]);
            }
        }
    }
}

/// The headings of a listing: `context` first, then, over the cells that a shown
/// column fills, that column's name.
pub proof fn law_listing_headings(cols: Seq<PrinterColumnView>, wide: bool)
    ensures
        listing_headers(cols, wide).len() == shown_columns(cols, wide).len() + 1,
        listing_headers(cols, wide)[0] == "context"@,
        forall|k: int|
            1 <= k <= shown_columns(cols, wide).len() ==> #[trigger] listing_headers(cols, wide)[k] == shown_columns(
                cols,
                wide,
            )[k - 1].name,
{
}

} // verus!

use vstd::prelude::*;

use tabprinter::{Alignment, Cell, Table, TableStyle};

verus! {

#[verifier::external_type_specification]
#[verifier::external_body]
pub struct ExTable(Table);

/// The headings of a `tabprinter::Table`, one per column, in order.
pub uninterp spec fn table_headers(t: Table) -> Seq<Seq<char>>;

/// The text of each cell of a `tabprinter::Table`, row by row.
pub uninterp spec fn table_rows(t: Table) -> Seq<Seq<Seq<char>>>;

/// How the text of each column of a `tabprinter::Table` is aligned, one per column, in order.
pub uninterp spec fn table_alignments(t: Table) -> Seq<ColumnAlign>;

/// The border styles that listings use.
pub enum TableLook {
    Neon,
}

/// How the text of a column is aligned.
pub enum ColumnAlign {
    Left,
    Center,
    Right,
}

/// `tabprinter::Table::new`: a table without columns or rows.
#[verifier::external_body]
pub(crate) fn new_table(look: TableLook) -> (t: Table)
    ensures
        table_headers(t) == Seq::<Seq<char>>::empty(),
        table_rows(t) == Seq::<Seq<Seq<char>>>::empty(),
        table_alignments(t) == Seq::<ColumnAlign>::empty(),
{
    let style = match look {
        TableLook::Neon => TableStyle::Neon,
    };
    Table::new(style)
}

/// `tabprinter::Table::add_column`: appends a column with this heading and this
/// alignment; the rows stay as they are.
#[verifier::external_body]
pub(crate) fn add_column(t: &mut Table, header: &str, align: ColumnAlign)
    ensures
        table_headers(*final(t)) == table_headers(*old(t)).push(header@),
        table_rows(*final(t)) == table_rows(*old(t)),
        table_alignments(*final(t)) == table_alignments(*old(t)).push(align),
{
    let alignment = match align {
        ColumnAlign::Left => Alignment::Left,
        ColumnAlign::Center => Alignment::Center,
        ColumnAlign::Right => Alignment::Right,
    };
    t.add_column(header, alignment)
}

/// `tabprinter::Table::add_row`, each text made a cell by `Cell::new`: appends the
/// row. The crate panics when the row has not one cell per column, which the
/// `requires` rules out.
#[verifier::external_body]
pub(crate) fn add_row(t: &mut Table, row: &Vec<String>)
    requires
        row@.len() == table_headers(*old(t)).len(),
    ensures
        table_headers(*final(t)) == table_headers(*old(t)),
        table_rows(*final(t)) == table_rows(*old(t)).push(row@.map_values(|s: String| s@)),
        table_alignments(*final(t)) == table_alignments(*old(t)),
{
    t.add_row(row.iter().map(|text| Cell::new(text)).collect())
}

} // verus!

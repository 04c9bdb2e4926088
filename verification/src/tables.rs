//! Tables of text.

use vstd::prelude::*;
use crate::text;

verus! {

/// The cells of a table as text.
pub open spec fn grid(rows: Seq<Vec<String>>) -> Seq<Seq<Seq<char>>> {
    rows.map_values(|row: Vec<String>| text::views(row@))
}

/// A table without borders, laid out by its contents alone, as
/// `comfy_table::Table` prints it with the preset `NOTHING`.
pub uninterp spec fn table_text(header: Seq<Seq<char>>, rows: Seq<Seq<Seq<char>>>) -> Seq<char>;

/// `comfy_table::Table`: a table with the preset `NOTHING` and its default
/// arrangement, which looks at the cells only, printed. The layout is named,
/// not described.
#[verifier::external_body]
pub(crate) fn render_table(header: &Vec<String>, rows: &Vec<Vec<String>>) -> (r: String)
    ensures
        r@ == table_text(text::views(header@), grid(rows@)),
{
    let mut table = comfy_table::Table::new();
    table.load_preset(comfy_table::presets::NOTHING);
    table.set_header(header.clone());
    table.add_rows(rows.clone());
    table.to_string()
}

/// A table with borders, as `comfy_table::Table` prints it by default.
pub uninterp spec fn framed_table(header: Seq<Seq<char>>, rows: Seq<Seq<Seq<char>>>) -> Seq<char>;

/// `comfy_table::Table`: a table with its default preset and arrangement, which
/// looks at the cells only, printed. The layout is named, not described.
#[verifier::external_body]
pub(crate) fn render_framed_table(header: &Vec<String>, rows: &Vec<Vec<String>>) -> (r: String)
    ensures
        r@ == framed_table(text::views(header@), grid(rows@)),
{
    let mut table = comfy_table::Table::new();
    table.set_header(header.clone());
    table.add_rows(rows.clone());
    table.to_string()
}

/// A table without borders, wrapped to a width, as `comfy_table::Table` prints
/// it with the preset `NOTHING` and the arrangement `Dynamic`.
pub uninterp spec fn wrapped_table(
    header: Seq<Seq<char>>,
    rows: Seq<Seq<Seq<char>>>,
    width: u16,
) -> Seq<char>;

/// `comfy_table::Table`: a table with the preset `NOTHING`, the arrangement
/// `Dynamic` and a given width, printed. The layout is named, not described.
#[verifier::external_body]
pub(crate) fn render_wrapped_table(
    header: &Vec<String>,
    rows: &Vec<Vec<String>>,
    width: u16,
) -> (r: String)
    ensures
        r@ == wrapped_table(text::views(header@), grid(rows@), width),
{
    let mut table = comfy_table::Table::new();
    table.load_preset(comfy_table::presets::NOTHING);
    table.set_content_arrangement(comfy_table::ContentArrangement::Dynamic);
    table.set_width(width);
    table.set_header(header.clone());
    table.add_rows(rows.clone());
    table.to_string()
}

/// A table fitted to the terminal, if its width is known.
pub open spec fn fitted_table(
    header: Seq<Seq<char>>,
    rows: Seq<Seq<Seq<char>>>,
    width: Option<u16>,
) -> Seq<char> {
    match width {
        Some(w) => wrapped_table(header, rows, w),
        None => table_text(header, rows),
    }
}

pub fn render_fitted_table(
    header: &Vec<String>,
    rows: &Vec<Vec<String>>,
    width: Option<u16>,
) -> (r: String)
    ensures
        r@ == fitted_table(text::views(header@), grid(rows@), width),
{
    match width {
        Some(w) => render_wrapped_table(header, rows, w),
        None => render_table(header, rows),
    }
}

pub proof fn grid_push(rows: Seq<Vec<String>>, row: Vec<String>)
    ensures
        grid(rows.push(row)) == grid(rows).push(text::views(row@)),
{
    assert(grid(rows.push(row)) =~= grid(rows).push(text::views(row@)));
}

} // verus!

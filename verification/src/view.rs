use vstd::prelude::*;
use crate::model::{Mode, RelatedRecord, SheetCache};
use crate::model::text::TextInput;
use crate::strings::{decimal, digits, signed_decimal, unsigned_decimal};

verus! {

/// How a cell of the table is drawn.
#[derive(Clone, Copy, Debug, PartialEq, Eq, Structural)]
pub enum CellStyle {
    /// The selected cell while its text is edited.
    Editing,
    /// The selected cell.
    Selected,
    /// A cell in the selected row or column, in normal mode.
    Aligned,
    Plain,
}

/// The style of a cell, given whether it lies in the selected column and row.
pub open spec fn cell_style_spec(in_selected_col: bool, in_selected_row: bool, mode: Mode) -> CellStyle {
    if in_selected_col && in_selected_row && mode is EditingCell {
        CellStyle::Editing
    } else if in_selected_col && in_selected_row {
        CellStyle::Selected
    } else if (in_selected_row || in_selected_col) && mode is Normal {
        CellStyle::Aligned
    } else {
        CellStyle::Plain
    }
}

/// The style of a cell, given whether it lies in the selected column and row.
pub fn cell_style(in_selected_col: bool, in_selected_row: bool, mode: &Mode) -> (r: CellStyle)
    ensures
        r == cell_style_spec(in_selected_col, in_selected_row, *mode),
{
    let selected = in_selected_col && in_selected_row;
    if selected && mode.is_editing() {
        CellStyle::Editing
    } else if selected {
        CellStyle::Selected
    } else if (in_selected_row || in_selected_col) && mode.is_normal() {
        CellStyle::Aligned
    } else {
        CellStyle::Plain
    }
}

/// The text a cell shows: the text being typed when it is the selected cell and
/// a cell is being edited, and its display text otherwise.
pub fn cell_text<'a>(display: &'a String, mode: &'a Mode, is_selected: bool) -> (r: &'a String)
    ensures
        *r == match *mode {
            Mode::EditingCell(t) => if is_selected {
                t.input
            } else {
                *display
            },
            _ => *display,
        },
{
    match mode {
        Mode::EditingCell(t) => if is_selected {
            &t.input
        } else {
            display
        },
        _ => display,
    }
}

/// The status line of a sheet: the span of loaded rows, the total count and
/// the cursor, as `start-end / total     Cursor x, y`.
pub fn status_text(sheet: &SheetCache) -> (r: String)
    requires
        sheet.start_offset + sheet.rows@.len() <= usize::MAX,
    ensures
        r@ == digits(sheet.start_offset as nat) + "-"@ + digits(
            (sheet.start_offset + sheet.rows@.len()) as nat,
        ) + " / "@ + digits(sheet.total_count as nat) + "     Cursor "@ + decimal(
            sheet.selected_cell.x as int,
        ) + ", "@ + decimal(sheet.selected_cell.y as int),
{
    let mut r = unsigned_decimal(sheet.start_offset as u64);
    r.append("-");
    let end = unsigned_decimal(sheet.end_offset() as u64);
    r.append(end.as_str());
    r.append(" / ");
    let total = unsigned_decimal(sheet.total_count as u64);
    r.append(total.as_str());
    r.append("     Cursor ");
    let x = signed_decimal(sheet.selected_cell.x as i64);
    r.append(x.as_str());
    r.append(", ");
    let y = signed_decimal(sheet.selected_cell.y as i64);
    r.append(y.as_str());
    r
}

/// What the search line of the autocomplete list shows: the placeholder while
/// nothing is typed (first component `true`), the typed text otherwise.
pub fn search_line<'a>(search: &'a TextInput, placeholder: &'a str) -> (r: (bool, &'a str))
    ensures
        r.0 == (search.input@.len() == 0),
        r.1@ == if search.input@.len() == 0 {
            placeholder@
        } else {
            search.input@
        },
{
    if search.input.as_str().unicode_len() == 0 {
        (true, placeholder)
    } else {
        (false, search.input.as_str())
    }
}

/// The line of the autocomplete list for a related record: its key, a space
/// and its label.
pub fn related_item_text(record: &RelatedRecord) -> (r: String)
    ensures
        r@ == record.key@ + " "@ + record.label@,
{
    let mut r = record.key.clone();
    r.append(" ");
    r.append(record.label.as_str());
    r
}

} // verus!

use vstd::prelude::*;
use crate::model::{App, SheetRow, cursor_row, cursor_row_ok};

verus! {

impl App {
    /// The loaded row under the cursor.
    pub fn selected_row(&self) -> (r: &SheetRow)
        requires
            self.has_active(),
            cursor_row_ok(self.active()),
        ensures
            *r == cursor_row(self.active()),
    {
        let sheet = match self.active_sheet() {
            Some(s) => s,
            None => vstd::pervasive::unreached(),
        };
        &sheet.rows[sheet.view_cursor().row()]
    }
}

} // verus!

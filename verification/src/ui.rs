//! The immediate-mode renderer: a drawing cursor that walks down the screen
//! one row per label, and a list scope that decides which row is drawn
//! highlighted. Rather than touching the terminal, each drawing call returns
//! the positioned piece of text for the surrounding program to draw.

use vstd::prelude::*;

verus! {

/// How a piece of text is drawn: plain, or inverted to mark the selection.
#[derive(Clone, Copy, PartialEq, Eq, Structural, Debug)]
pub enum Style {
    Regular,
    Highlight,
}

/// One positioned piece of text of the current frame.
pub struct DrawCmd {
    pub row: usize,
    pub col: usize,
    pub text: String,
    pub style: Style,
}

/// The renderer's whole state: the drawing cursor and, while a list scope is
/// open, the id of its selected row. Both are reset every frame.
pub struct Ui {
    pub list_curr: Option<usize>,
    pub row: usize,
    pub col: usize,
}

impl Default for Ui {
    /// A renderer at the origin with no list scope open.
    fn default() -> (ui: Ui)
        ensures
            ui.list_curr is None,
            ui.row == 0,
            ui.col == 0,
    {
        Ui { list_curr: None, row: 0, col: 0 }
    }
}

impl Ui {
    /// Reset the drawing cursor to the given origin; the first call of every
    /// frame.
    pub fn begin(&mut self, row: usize, col: usize)
        ensures
            final(self).row == row,
            final(self).col == col,
            final(self).list_curr == old(self).list_curr,
    {
        self.row = row;
        self.col = col;
    }

    /// Open a list scope, declaring which row id is selected. Opening a
    /// nested list is a contract violation between renderer and caller, so
    /// it is ruled out here instead of failing at run time.
    pub fn begin_list(&mut self, id: usize)
        requires
            old(self).list_curr is None,
        ensures
            final(self).list_curr == Some(id),
            final(self).row == old(self).row,
            final(self).col == old(self).col,
    {
        self.list_curr = Some(id);
    }

    /// Emit `text` at the drawing cursor in the given style, then advance
    /// the cursor one row down.
    pub fn label(&mut self, text: &str, style: Style) -> (cmd: DrawCmd)
        requires
            old(self).row < usize::MAX,
        ensures
            final(self).row == old(self).row + 1,
            final(self).col == old(self).col,
            final(self).list_curr == old(self).list_curr,
            cmd.row == old(self).row,
            cmd.col == old(self).col,
            cmd.text@ == text@,
            cmd.style == style,
    {
        let cmd = DrawCmd { row: self.row, col: self.col, text: text.to_owned(), style };
        self.row = self.row + 1;
        cmd
    }

    /// Emit one list row: highlighted when `id` is the selected row declared
    /// by `begin_list`, plain otherwise. Drawing a row outside a list scope
    /// is a contract violation, ruled out here.
    pub fn list_element(&mut self, text: &str, id: usize) -> (cmd: DrawCmd)
        requires
            old(self).list_curr is Some,
            old(self).row < usize::MAX,
        ensures
            final(self).row == old(self).row + 1,
            final(self).col == old(self).col,
            final(self).list_curr == old(self).list_curr,
            cmd.row == old(self).row,
            cmd.col == old(self).col,
            cmd.text@ == text@,
            cmd.style == (if old(self).list_curr == Some(id) {
                Style::Highlight
            } else {
                Style::Regular
            }),
    {
        let id_curr = self.list_curr.unwrap();
        self.label(
            text,
            if id_curr == id {
                Style::Highlight
            } else {
                Style::Regular
            },
        )
    }

    /// Close the list scope, permitting a later `begin_list`.
    pub fn end_list(&mut self)
        ensures
            final(self).list_curr is None,
            final(self).row == old(self).row,
            final(self).col == old(self).col,
    {
        self.list_curr = None;
    }

    /// Frame hook kept for symmetry; changes nothing.
    pub fn end(&mut self)
        ensures
            *final(self) == *old(self),
    {
    }
}

} // verus!

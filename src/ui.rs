use vstd::prelude::*;

verus! {

/// The colour pair of ordinary text.
pub const REGULAR_PAIR: i16 = 0;

/// The colour pair of the highlighted list element.
pub const HIGHLIGHT_PAIR: i16 = 1;

/// One line of a frame: where it goes, what it says and in which colour pair.
pub struct Paint {
    pub row: usize,
    pub col: usize,
    pub text: String,
    pub pair: i16,
}

/// The state of one frame being built: the position of the next line and
/// the id to highlight while a list block is open.
pub struct Ui {
    pub list_curr: Option<usize>,
    pub row: usize,
    pub col: usize,
}

impl Default for Ui {
    fn default() -> (r: Ui)
        ensures
            !r.in_list(),
            r.list_curr is None,
            r.row == 0,
            r.col == 0,
    {
        Ui { list_curr: None, row: 0, col: 0 }
    }
}

impl Ui {
    /// A list block is open.
    pub open spec fn in_list(&self) -> bool {
        self.list_curr is Some
    }

    /// Starts a frame at the given position.
    pub fn begin(&mut self, row: usize, col: usize)
        ensures
            final(self).row == row,
            final(self).col == col,
            final(self).list_curr == old(self).list_curr,
    {
        self.row = row;
        self.col = col;
    }

    /// Opens a list block whose element `id` is drawn highlighted. Blocks do
    /// not nest: no block may be open.
    pub fn begin_list(&mut self, id: usize)
        requires
            !old(self).in_list(),
        ensures
            final(self).in_list(),
            final(self).list_curr == Some(id),
            final(self).row == old(self).row,
            final(self).col == old(self).col,
    {
        self.list_curr = Some(id);
    }

    /// Paints an element of the open list block on the next line,
    /// highlighted when `id` is the block's selected id. Only inside a block.
    pub fn list_element(&mut self, label: &str, id: usize) -> (p: Paint)
        requires
            old(self).in_list(),
            old(self).row < usize::MAX,
        ensures
            p.row == old(self).row,
            p.col == old(self).col,
            p.text@ == label@,
            p.pair == if old(self).list_curr == Some(id) {
                HIGHLIGHT_PAIR
            } else {
                REGULAR_PAIR
            },
            final(self).row == old(self).row + 1,
            final(self).col == old(self).col,
            final(self).list_curr == old(self).list_curr,
    {
        let id_curr = self.list_curr.unwrap();
        let pair = if id_curr == id {
            HIGHLIGHT_PAIR
        } else {
            REGULAR_PAIR
        };
        self.label(label, pair)
    }

    /// Paints `text` in colour pair `pair` on the next line.
    pub fn label(&mut self, text: &str, pair: i16) -> (p: Paint)
        requires
            old(self).row < usize::MAX,
        ensures
            p.row == old(self).row,
            p.col == old(self).col,
            p.text@ == text@,
            p.pair == pair,
            final(self).row == old(self).row + 1,
            final(self).col == old(self).col,
            final(self).list_curr == old(self).list_curr,
    {
        let p = Paint { row: self.row, col: self.col, text: text.to_string(), pair };
        self.row += 1;
        p
    }

    /// Closes the list block.
    pub fn end_list(&mut self)
        ensures
            !final(self).in_list(),
            final(self).list_curr is None,
            final(self).row == old(self).row,
            final(self).col == old(self).col,
    {
        self.list_curr = None;
    }

    /// Ends the frame; nothing is left to do.
    pub fn end(&mut self)
        ensures
            *final(self) == *old(self),
    {
    }
}

} // verus!

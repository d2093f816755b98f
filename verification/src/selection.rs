//! Which item of a list is selected, and from where the list is shown.

use vstd::prelude::*;

verus! {

/// The state of a list on screen: the index of the selected item, if any,
/// and the index of the first item shown.
///
/// The moves are those of a list widget's state: they do not know how long
/// the list is, and the selection is brought back into the list when the
/// list is drawn, or by `ensure_in_bounds`.
#[derive(Debug, Clone, Copy, PartialEq, Eq, Structural)]
pub struct Selection {
    pub selected: Option<usize>,
    pub offset: usize,
}

/// `a + b`, or the largest number where that does not fit.
pub open spec fn saturating_add(a: usize, b: usize) -> usize {
    if a + b > usize::MAX {
        usize::MAX
    } else {
        (a + b) as usize
    }
}

/// `a - b`, or 0 where `b` is larger.
pub open spec fn saturating_sub(a: usize, b: usize) -> usize {
    if a < b {
        0
    } else {
        (a - b) as usize
    }
}

/// The selection brought into a list of `len` items. In an empty list
/// nothing is selected; a selection beyond the end moves to the last item;
/// an offset beyond the end goes back to 0.
pub open spec fn in_bounds(s: Selection, len: usize) -> Selection {
    if len == 0 {
        Selection { selected: None, offset: 0 }
    } else {
        Selection {
            selected: match s.selected {
                Some(i) => if i >= len {
                    Some((len - 1) as usize)
                } else {
                    Some(i)
                },
                None => None,
            },
            offset: if s.offset >= len {
                0
            } else {
                s.offset
            },
        }
    }
}

impl Selection {
    /// The selection once `index` is selected: selecting none also shows the
    /// list from its first item again.
    pub open spec fn at(self, index: Option<usize>) -> Selection {
        Selection {
            selected: index,
            offset: if index is None {
                0
            } else {
                self.offset
            },
        }
    }

    /// The selection moved to the item after the selected one, or to the
    /// first where none is selected.
    pub open spec fn next(self) -> Selection {
        self.at(
            Some(
                match self.selected {
                    Some(i) => saturating_add(i, 1),
                    None => 0,
                },
            ),
        )
    }

    /// The selection moved to the item before the selected one, or to the
    /// last where none is selected.
    pub open spec fn previous(self) -> Selection {
        self.at(
            Some(
                match self.selected {
                    Some(i) => saturating_sub(i, 1),
                    None => usize::MAX,
                },
            ),
        )
    }

    /// The selection moved down by `amount` items, counting from the first
    /// where none is selected.
    pub open spec fn down_by(self, amount: u16) -> Selection {
        self.at(
            Some(
                saturating_add(
                    match self.selected {
                        Some(i) => i,
                        None => 0,
                    },
                    amount as usize,
                ),
            ),
        )
    }

    /// The selection moved up by `amount` items, counting from the first
    /// where none is selected.
    pub open spec fn up_by(self, amount: u16) -> Selection {
        self.at(
            Some(
                saturating_sub(
                    match self.selected {
                        Some(i) => i,
                        None => 0,
                    },
                    amount as usize,
                ),
            ),
        )
    }

    /// Nothing selected, shown from the first item.
    pub fn new() -> (s: Selection)
        ensures
            s == (Selection { selected: None, offset: 0 }),
    {
        Selection { selected: None, offset: 0 }
    }

    /// The item at `index` selected, shown from the first item.
    pub fn with_selected(index: Option<usize>) -> (s: Selection)
        ensures
            s == (Selection { selected: index, offset: 0 }),
    {
        Selection { selected: index, offset: 0 }
    }

    /// Selects the item at `index`, or none; selecting none also shows the
    /// list from its first item again.
    pub fn select(&mut self, index: Option<usize>)
        ensures
            *final(self) == old(self).at(index),
    {
        self.selected = index;
        if index.is_none() {
            self.offset = 0;
        }
    }

    /// Selects the item after the selected one, or the first where none is
    /// selected.
    pub fn select_next(&mut self)
        ensures
            *final(self) == old(self).next(),
    {
        let next: usize = match self.selected {
            Some(i) => i.saturating_add(1),
            None => 0,
        };
        self.select(Some(next));
    }

    /// Selects the item before the selected one, or the last where none is
    /// selected.
    pub fn select_previous(&mut self)
        ensures
            *final(self) == old(self).previous(),
    {
        let previous: usize = match self.selected {
            Some(i) => i.saturating_sub(1),
            None => usize::MAX,
        };
        self.select(Some(previous));
    }

    /// Selects the first item.
    pub fn select_first(&mut self)
        ensures
            *final(self) == old(self).at(Some(0usize)),
    {
        self.select(Some(0));
    }

    /// Selects the last item, whatever the length of the list.
    pub fn select_last(&mut self)
        ensures
            *final(self) == old(self).at(Some(usize::MAX)),
    {
        self.select(Some(usize::MAX));
    }

    /// Moves the selection down by `amount` items, counting from the first
    /// where none is selected.
    pub fn scroll_down_by(&mut self, amount: u16)
        ensures
            *final(self) == old(self).down_by(amount),
    {
        let selected: usize = match self.selected {
            Some(i) => i,
            None => 0,
        };
        self.select(Some(selected.saturating_add(amount as usize)));
    }

    /// Moves the selection up by `amount` items, counting from the first
    /// where none is selected.
    pub fn scroll_up_by(&mut self, amount: u16)
        ensures
            *final(self) == old(self).up_by(amount),
    {
        let selected: usize = match self.selected {
            Some(i) => i,
            None => 0,
        };
        self.select(Some(selected.saturating_sub(amount as usize)));
    }

    /// Brings selection and offset into a list of `len` items.
    pub fn ensure_in_bounds(&mut self, len: usize)
        ensures
            *final(self) == in_bounds(*old(self), len),
    {
        if len == 0 {
            self.select(None);
            self.offset = 0;
            return ;
        }
        let selected: usize = match self.selected {
            Some(i) => i,
            None => 0,
        };
        if selected >= len {
            self.select(Some(len - 1));
        }
        if self.offset >= len {
            self.offset = 0;
        }
    }
}

} // verus!

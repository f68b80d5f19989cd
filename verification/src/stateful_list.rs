//! A list of items with a selection cursor that wraps at both ends.
//!
//! `cursor` is the highlighted row, if any; `selected` is the index the
//! rest of the client acts on (it defaults to the first row when nothing
//! was ever highlighted).

use vstd::prelude::*;

verus! {

pub struct StatefulList<T> {
    pub items: Vec<T>,
    pub cursor: Option<usize>,
    pub selected: usize,
}

/// The cursor index after one step down from `cur` in a list of `len`
/// rows: past the last row it wraps to the first, and on an empty list
/// it is the first.
pub open spec fn wrap_next(cur: Option<usize>, len: nat) -> int {
    match cur {
        None => 0,
        Some(i) => if len == 0 || i as int >= len - 1 {
            0
        } else {
            i as int + 1
        },
    }
}

/// The cursor index after one step up from `cur`: on the first row it
/// wraps to the last, and on an empty list it is the first.
pub open spec fn wrap_previous(cur: Option<usize>, len: nat) -> int {
    match cur {
        None => 0,
        Some(i) => if i == 0 {
            if len == 0 {
                0
            } else {
                len - 1
            }
        } else {
            i as int - 1
        },
    }
}

impl<T> StatefulList<T> {
    /// The selection always addresses a real row (or row 0 of an empty
    /// list), and the cursor, when set, does the same.
    pub open spec fn wf(&self) -> bool {
        &&& (self.items.len() == 0 ==> self.selected == 0)
        &&& (self.items.len() > 0 ==> (self.selected as int) < self.items.len())
        &&& match self.cursor {
            None => true,
            Some(c) => if self.items.len() == 0 {
                c == 0
            } else {
                (c as int) < self.items.len()
            },
        }
    }

    pub fn with_items(items: Vec<T>) -> (l: StatefulList<T>)
        ensures
            l.items == items,
            l.cursor is None,
            l.selected == 0,
            l.wf(),
    {
        StatefulList { items, cursor: None, selected: 0 }
    }

    /// Move the cursor one row down, wrapping past the end.
    pub fn next(&mut self)
        requires
            old(self).wf(),
        ensures
            final(self).wf(),
            final(self).items == old(self).items,
            final(self).cursor == Some(final(self).selected),
            final(self).selected as int == wrap_next(old(self).cursor, old(self).items.len() as nat),
    {
        let i: usize = match self.cursor {
            Some(i) => {
                if self.items.len() == 0 || i >= self.items.len() - 1 {
                    0
                } else {
                    i + 1
                }
            },
            None => 0,
        };
        self.selected = i;
        self.cursor = Some(i);
    }

    /// Move the cursor one row up, wrapping past the start.
    pub fn previous(&mut self)
        requires
            old(self).wf(),
        ensures
            final(self).wf(),
            final(self).items == old(self).items,
            final(self).cursor == Some(final(self).selected),
            final(self).selected as int == wrap_previous(old(self).cursor, old(self).items.len() as nat),
    {
        let i: usize = match self.cursor {
            Some(i) => {
                if i == 0 {
                    if self.items.len() == 0 {
                        0
                    } else {
                        self.items.len() - 1
                    }
                } else {
                    i - 1
                }
            },
            None => 0,
        };
        self.selected = i;
        self.cursor = Some(i);
    }

    /// Select the last row (the first on an empty list).
    pub fn last(&mut self)
        requires
            old(self).wf(),
        ensures
            final(self).wf(),
            final(self).items == old(self).items,
            final(self).cursor == Some(final(self).selected),
            final(self).selected as int == if old(self).items.len() == 0 {
                0
            } else {
                old(self).items.len() - 1
            },
    {
        let i: usize = if self.items.len() == 0 {
            0
        } else {
            self.items.len() - 1
        };
        self.selected = i;
        self.cursor = Some(i);
    }

    /// Select the first row.
    pub fn first(&mut self)
        requires
            old(self).wf(),
        ensures
            final(self).wf(),
            final(self).items == old(self).items,
            final(self).cursor == Some(0usize),
            final(self).selected == 0,
    {
        self.selected = 0;
        self.cursor = Some(0);
    }

    /// Clear the highlight; the acted-on index stays where it was.
    pub fn unselect(&mut self)
        requires
            old(self).wf(),
        ensures
            final(self).wf(),
            final(self).items == old(self).items,
            final(self).cursor is None,
            final(self).selected == old(self).selected,
    {
        self.cursor = None;
    }
}

} // verus!

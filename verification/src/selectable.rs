//! A generic cursor-navigable ordered sequence with wraparound navigation,
//! shared by the entry list and the option pickers. Navigation is total:
//! on an empty list every operation leaves the cursor cleared, and
//! clearing the selection never touches the viewport offset.

use vstd::prelude::*;

verus! {

/// An ordered sequence of items, an optional cursor, and the viewport
/// offset owned by the presentation layer.
pub struct SelectableList<T> {
    pub items: Vec<T>,
    pub selected: Option<usize>,
    pub offset: usize,
}

impl<T> SelectableList<T> {
    /// A list over the given items with no selection.
    pub fn new(items: Vec<T>) -> (r: Self)
        ensures
            r.items == items,
            r.selected is None,
            r.offset == 0,
    {
        SelectableList { items, selected: None, offset: 0 }
    }

    /// Moves the cursor one step forward, wrapping past the end to the
    /// first index; an unset cursor lands on the first index.
    pub fn next(&mut self)
        ensures
            final(self).items == old(self).items,
            final(self).offset == old(self).offset,
            final(self).selected == if old(self).items.len() == 0 {
                None::<usize>
            } else {
                match old(self).selected {
                    Some(i) => if i >= old(self).items.len() - 1 {
                        Some(0usize)
                    } else {
                        Some((i + 1) as usize)
                    },
                    None => Some(0usize),
                }
            },
    {
        if self.items.len() == 0 {
            self.unselect();
        } else {
            let i = match self.selected {
                Some(i) => if i >= self.items.len() - 1 {
                    0
                } else {
                    i + 1
                },
                None => 0,
            };
            self.selected = Some(i);
        }
    }

    /// Moves the cursor one step back, wrapping before the start to the
    /// last index; an unset cursor lands on the first index.
    pub fn previous(&mut self)
        ensures
            final(self).items == old(self).items,
            final(self).offset == old(self).offset,
            final(self).selected == if old(self).items.len() == 0 {
                None::<usize>
            } else {
                match old(self).selected {
                    Some(i) => if i == 0 {
                        Some((old(self).items.len() - 1) as usize)
                    } else {
                        Some((i - 1) as usize)
                    },
                    None => Some(0usize),
                }
            },
    {
        if self.items.len() == 0 {
            self.unselect();
        } else {
            let i = match self.selected {
                Some(i) => if i == 0 {
                    self.items.len() - 1
                } else {
                    i - 1
                },
                None => 0,
            };
            self.selected = Some(i);
        }
    }

    /// Jumps the cursor to the first index.
    pub fn first(&mut self)
        ensures
            final(self).items == old(self).items,
            final(self).offset == old(self).offset,
            final(self).selected == if old(self).items.len() == 0 {
                None::<usize>
            } else {
                Some(0usize)
            },
    {
        if self.items.len() == 0 {
            self.unselect();
        } else {
            self.selected = Some(0);
        }
    }

    /// Jumps the cursor to the last index.
    pub fn last(&mut self)
        ensures
            final(self).items == old(self).items,
            final(self).offset == old(self).offset,
            final(self).selected == if old(self).items.len() == 0 {
                None::<usize>
            } else {
                Some((old(self).items.len() - 1) as usize)
            },
    {
        if self.items.len() == 0 {
            self.unselect();
        } else {
            self.selected = Some(self.items.len() - 1);
        }
    }

    /// Clears the selection, leaving the items and the viewport offset
    /// exactly as they were.
    pub fn unselect(&mut self)
        ensures
            final(self).items == old(self).items,
            final(self).offset == old(self).offset,
            final(self).selected is None,
    {
        self.selected = None;
    }
}

} // verus!

//! A cursor over a list of entries, as both panes and the browser use.

use vstd::prelude::*;

verus! {

/// A list of entries with one selected index.
pub struct ListSelector<T> {
    pub entries: Vec<T>,
    pub selected: usize,
}

impl<T> ListSelector<T> {
    /// A selector over `entries` with the top entry selected.
    pub fn new(entries: Vec<T>) -> (r: ListSelector<T>)
        ensures
            r.entries == entries,
            r.selected == 0,
    {
        ListSelector { entries, selected: 0 }
    }

    /// Move the cursor up one entry, staying at the top.
    pub fn move_up(&mut self)
        ensures
            final(self).entries == old(self).entries,
            final(self).selected == if old(self).selected > 0 {
                old(self).selected - 1
            } else {
                0int
            },
    {
        if self.selected > 0 {
            self.selected = self.selected - 1;
        }
    }

    /// Move the cursor down one entry, staying on the last.
    pub fn move_down(&mut self)
        ensures
            final(self).entries == old(self).entries,
            final(self).selected == if old(self).selected + 1 < old(self).entries@.len() {
                old(self).selected + 1
            } else {
                old(self).selected as int
            },
    {
        if self.entries.len() > 0 && self.selected < self.entries.len() - 1 {
            self.selected = self.selected + 1;
        }
    }

    /// Replace the entries and reset the cursor to the top.
    pub fn set_entries(&mut self, entries: Vec<T>)
        ensures
            final(self).entries == entries,
            final(self).selected == 0,
    {
        self.entries = entries;
        self.selected = 0;
    }

    /// The entry under the cursor, if the list is not empty.
    pub fn selected_item(&self) -> (r: Option<&T>)
        ensures
            self.selected < self.entries@.len() ==> (r matches Some(x) && *x
                == self.entries@[self.selected as int]),
            self.selected >= self.entries@.len() ==> r is None,
    {
        if self.selected < self.entries.len() {
            Some(&self.entries[self.selected])
        } else {
            None
        }
    }
}

} // verus!

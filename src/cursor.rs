//! A list of shown items with an optional selected position.
use vstd::prelude::*;

verus! {

/// The position after `sel` in a list of `len` items, wrapping from the
/// last to the first; the first when nothing is selected. An empty list
/// keeps its selection.
pub open spec fn next_spec(sel: Option<usize>, len: nat) -> Option<usize> {
    if len == 0 {
        sel
    } else {
        match sel {
            Some(i) => if i + 1 >= len {
                Some(0usize)
            } else {
                Some((i + 1) as usize)
            },
            None => Some(0usize),
        }
    }
}

/// The position before `sel` in a list of `len` items, wrapping from the
/// first to the last; the first when nothing is selected. An empty list
/// keeps its selection.
pub open spec fn previous_spec(sel: Option<usize>, len: nat) -> Option<usize> {
    if len == 0 {
        sel
    } else {
        match sel {
            Some(i) => if i == 0 {
                Some((len - 1) as usize)
            } else {
                Some((i - 1) as usize)
            },
            None => Some(0usize),
        }
    }
}

/// Whether `sel` is nothing or a position of a list of `len` items.
pub open spec fn selection_in(sel: Option<usize>, len: nat) -> bool {
    match sel {
        Some(i) => i < len,
        None => true,
    }
}

/// The position after `sel` in a list of `len` items, wrapping around.
pub fn next_index(sel: Option<usize>, len: usize) -> (r: Option<usize>)
    ensures
        r == next_spec(sel, len as nat),
{
    if len == 0 {
        sel
    } else {
        match sel {
            Some(i) => if i >= len - 1 {
                Some(0)
            } else {
                Some(i + 1)
            },
            None => Some(0),
        }
    }
}

/// The position before `sel` in a list of `len` items, wrapping around.
pub fn previous_index(sel: Option<usize>, len: usize) -> (r: Option<usize>)
    ensures
        r == previous_spec(sel, len as nat),
{
    if len == 0 {
        sel
    } else {
        match sel {
            Some(i) => if i == 0 {
                Some(len - 1)
            } else {
                Some(i - 1)
            },
            None => Some(0),
        }
    }
}

/// Items shown in one column, and which of them is selected.
#[derive(Debug)]
pub struct StatefulList {
    pub items: Vec<String>,
    pub selected: Option<usize>,
}

impl StatefulList {
    /// The texts of the items.
    pub open spec fn texts(&self) -> Seq<Seq<char>> {
        self.items@.map_values(|s: String| s@)
    }

    /// The selection is nothing or one of the items.
    pub open spec fn wf(&self) -> bool {
        selection_in(self.selected, self.items@.len())
    }

    /// A list of `items` with nothing selected.
    pub fn with_items(items: Vec<String>) -> (r: StatefulList)
        ensures
            r.items@ == items@,
            r.selected is None,
            r.wf(),
    {
        StatefulList { items, selected: None }
    }

    /// Selects the next item, wrapping around to the first.
    pub fn next(&mut self)
        requires
            old(self).wf(),
        ensures
            final(self).wf(),
            final(self).items@ == old(self).items@,
            final(self).selected == next_spec(old(self).selected, old(self).items@.len()),
    {
        self.selected = next_index(self.selected, self.items.len());
    }

    /// Selects the previous item, wrapping around to the last.
    pub fn previous(&mut self)
        requires
            old(self).wf(),
        ensures
            final(self).wf(),
            final(self).items@ == old(self).items@,
            final(self).selected == previous_spec(old(self).selected, old(self).items@.len()),
    {
        self.selected = previous_index(self.selected, self.items.len());
    }

    /// Selects `sel`: nothing, or one of the items.
    pub fn select(&mut self, sel: Option<usize>)
        requires
            selection_in(sel, old(self).items@.len()),
        ensures
            final(self).wf(),
            final(self).items@ == old(self).items@,
            final(self).selected == sel,
    {
        self.selected = sel;
    }
}

} // verus!

//! The result browser's selection model: a circular cursor over the
//! sequence of matches, with no selection while the sequence is empty.
//! Rendering is the surrounding binary's work; it reads the selected index
//! and the items from here.

use vstd::prelude::*;

verus! {

/// The cursor of a rendered list: the index of the highlighted entry, if
/// any entry is highlighted.
#[derive(Debug)]
pub struct ListSelection {
    pub selected: Option<usize>,
}

impl Default for ListSelection {
    fn default() -> (d: Self)
        ensures
            d.selected is None,
    {
        ListSelection { selected: None }
    }
}

impl ListSelection {
    /// The index of the highlighted entry, if any.
    pub fn selected(&self) -> (r: Option<usize>)
        ensures
            r == self.selected,
    {
        self.selected
    }

    /// Moves the highlight.
    pub fn select(&mut self, index: Option<usize>)
        ensures
            final(self).selected == index,
    {
        self.selected = index;
    }
}

/// Where a circular step forward lands: the first entry when nothing is
/// selected yet, the next entry otherwise, wrapping to the first after the
/// last. An empty list keeps its (absent) selection.
pub open spec fn step_forward(sel: Option<usize>, n: int) -> Option<usize> {
    if n == 0 {
        sel
    } else {
        match sel {
            None => Some(0usize),
            Some(i) => if i >= n - 1 {
                Some(0usize)
            } else {
                Some((i + 1) as usize)
            },
        }
    }
}

/// Where a circular step backward lands: the first entry when nothing is
/// selected yet, the previous entry otherwise, wrapping to the last before
/// the first. An empty list keeps its (absent) selection.
pub open spec fn step_backward(sel: Option<usize>, n: int) -> Option<usize> {
    if n == 0 {
        sel
    } else {
        match sel {
            None => Some(0usize),
            Some(i) => if i == 0 {
                Some((n - 1) as usize)
            } else {
                Some((i - 1) as usize)
            },
        }
    }
}

/// The browser's state: the matches being browsed and the cursor over them.
#[derive(Debug)]
pub struct ResultsState {
    pub list_state: ListSelection,
    pub items: Vec<String>,
}

impl ResultsState {
    /// A fresh browser over the given results, with nothing selected.
    pub fn from_results(results: &Vec<String>) -> (s: Self)
        ensures
            s.list_state.selected is None,
            s.items@ == results@,
    {
        let n = results.len();
        let mut items: Vec<String> = Vec::new();
        let mut i: usize = 0;
        while i < n
            invariant
                n == results@.len(),
                i <= n,
                items@ == results@.subrange(0, i as int),
            decreases n - i,
        {
            items.push(results[i].clone());
            proof {
                assert(items@ =~= results@.subrange(0, i + 1));
            }
            i = i + 1;
        }
        proof {
            assert(results@.subrange(0, n as int) =~= results@);
        }
        ResultsState { list_state: ListSelection { selected: None }, items }
    }

    /// Steps the selection forward circularly; the items are untouched.
    pub fn next(&mut self)
        ensures
            final(self).items == old(self).items,
            final(self).list_state.selected == step_forward(
                old(self).list_state.selected,
                old(self).items@.len() as int,
            ),
    {
        if self.items.len() == 0 {
            return ;
        }
        let i: usize = match self.list_state.selected() {
            Some(i) => {
                if i >= self.items.len() - 1 {
                    0
                } else {
                    i + 1
                }
            },
            None => 0,
        };
        self.list_state.select(Some(i));
    }

    /// Steps the selection backward circularly; the items are untouched.
    pub fn previous(&mut self)
        ensures
            final(self).items == old(self).items,
            final(self).list_state.selected == step_backward(
                old(self).list_state.selected,
                old(self).items@.len() as int,
            ),
    {
        if self.items.len() == 0 {
            return ;
        }
        let i: usize = match self.list_state.selected() {
            Some(i) => {
                if i == 0 {
                    self.items.len() - 1
                } else {
                    i - 1
                }
            },
            None => 0,
        };
        self.list_state.select(Some(i));
    }
}

} // verus!

//! The selection: which tab is open, and which item of a tab's list is
//! selected. Both move cyclically.

use vstd::arithmetic::div_mod::*;
use vstd::prelude::*;

verus! {

/// The position after `index` among `count` positions, the first after the
/// last.
pub open spec fn position_after(index: int, count: int) -> int {
    (index + 1) % count
}

/// The position before `index` among `count` positions, the last before the
/// first.
pub open spec fn position_before(index: int, count: int) -> int {
    (index + count - 1) % count
}

/// The position that `times` steps forward from `index` lead to.
pub open spec fn steps_forward(index: int, count: int, times: nat) -> int
    decreases times,
{
    if times == 0 {
        index
    } else {
        position_after(steps_forward(index, count, (times - 1) as nat), count)
    }
}

/// The position that `times` steps backward from `index` lead to.
pub open spec fn steps_backward(index: int, count: int, times: nat) -> int
    decreases times,
{
    if times == 0 {
        index
    } else {
        position_before(steps_backward(index, count, (times - 1) as nat), count)
    }
}

/// The item that `next` selects: the first where nothing is selected, else
/// the one after the selected item.
pub open spec fn selection_after(selected: Option<usize>, count: int) -> int {
    match selected {
        Some(i) => position_after(i as int, count),
        None => 0,
    }
}

/// The item that `previous` selects: the first where nothing is selected,
/// else the one before the selected item.
pub open spec fn selection_before(selected: Option<usize>, count: int) -> int {
    match selected {
        Some(i) => position_before(i as int, count),
        None => 0,
    }
}

/// One step forward stays among the positions, and wraps only from the last.
pub proof fn lemma_position_after(index: int, count: int)
    requires
        0 <= index < count,
    ensures
        0 <= position_after(index, count) < count,
        index + 1 < count ==> position_after(index, count) == index + 1,
        index + 1 == count ==> position_after(index, count) == 0,
{
    if index + 1 < count {
        lemma_small_mod((index + 1) as nat, count as nat);
    } else {
        lemma_mod_self_0(count);
    }
}

/// One step backward stays among the positions, and wraps only from the
/// first.
pub proof fn lemma_position_before(index: int, count: int)
    requires
        0 <= index < count,
    ensures
        0 <= position_before(index, count) < count,
        index > 0 ==> position_before(index, count) == index - 1,
        index == 0 ==> position_before(index, count) == count - 1,
{
    if index > 0 {
        lemma_small_mod((index - 1) as nat, count as nat);
        lemma_mod_add_multiples_vanish(index - 1, count);
    } else {
        lemma_small_mod((count - 1) as nat, count as nat);
    }
}

/// A step forward and a step backward undo each other, at the ends of the
/// list as anywhere else.
pub proof fn lemma_step_inverse(index: int, count: int)
    requires
        0 <= index < count,
    ensures
        position_before(position_after(index, count), count) == index,
        position_after(position_before(index, count), count) == index,
{
    lemma_position_after(index, count);
    lemma_position_before(index, count);
    lemma_position_before(position_after(index, count), count);
    lemma_position_after(position_before(index, count), count);
}

/// `times` steps forward, no more than once round, lead to the position
/// `index + times`, taken from the start again where it passes the end.
pub proof fn lemma_steps_forward(index: int, count: int, times: nat)
    requires
        0 <= index < count,
        times <= count,
    ensures
        steps_forward(index, count, times) == if index + times < count {
            index + times
        } else {
            index + times - count
        },
    decreases times,
{
    if times > 0 {
        lemma_steps_forward(index, count, (times - 1) as nat);
        lemma_position_after(steps_forward(index, count, (times - 1) as nat), count);
    }
}

/// `times` steps backward, no more than once round, lead to the position
/// `index - times`, taken from the end again where it passes the start.
pub proof fn lemma_steps_backward(index: int, count: int, times: nat)
    requires
        0 <= index < count,
        times <= count,
    ensures
        steps_backward(index, count, times) == if index - times >= 0 {
            index - times
        } else {
            index - times + count
        },
    decreases times,
{
    if times > 0 {
        lemma_steps_backward(index, count, (times - 1) as nat);
        lemma_position_before(steps_backward(index, count, (times - 1) as nat), count);
    }
}

/// As many steps in one direction as there are positions lead back to the
/// start.
pub proof fn lemma_full_round(index: int, count: int)
    requires
        0 <= index < count,
    ensures
        steps_forward(index, count, count as nat) == index,
        steps_backward(index, count, count as nat) == index,
{
    lemma_steps_forward(index, count, count as nat);
    lemma_steps_backward(index, count, count as nat);
}

/// After `next` and then `previous`, and after `previous` and then `next`,
/// the item that was selected is selected again.
pub proof fn lemma_selection_inverse(selected: usize, count: int)
    requires
        0 <= selected < count,
        count <= usize::MAX,
    ensures
        selection_before(Some(selection_after(Some(selected), count) as usize), count)
            == selected,
        selection_after(Some(selection_before(Some(selected), count) as usize), count)
            == selected,
{
    lemma_position_after(selected as int, count);
    lemma_position_before(selected as int, count);
    lemma_step_inverse(selected as int, count);
}

/// The tabs and the one that is open.
pub struct TabsState<'a> {
    pub titles: Vec<&'a str>,
    pub index: usize,
}

impl<'a> TabsState<'a> {
    /// There is a tab, and the open one is among the tabs.
    pub open spec fn wf(&self) -> bool {
        self.index < self.titles.len()
    }

    /// Whether there is a tab and the open one is among the tabs.
    pub fn is_valid(&self) -> (r: bool)
        ensures
            r == self.wf(),
    {
        self.index < self.titles.len()
    }

    /// The tabs `titles`, the first one open.
    pub fn new(titles: Vec<&'a str>) -> (r: TabsState<'a>)
        ensures
            r.titles == titles,
            r.index == 0,
    {
        TabsState { titles, index: 0 }
    }

    /// Opens the tab after the open one, the first after the last.
    pub fn next(&mut self)
        requires
            old(self).wf(),
        ensures
            final(self).titles == old(self).titles,
            final(self).index == position_after(
                old(self).index as int,
                old(self).titles.len() as int,
            ),
            final(self).wf(),
    {
        proof {
            lemma_position_after(self.index as int, self.titles.len() as int);
        }
        if self.index + 1 >= self.titles.len() {
            self.index = 0;
        } else {
            self.index = self.index + 1;
        }
    }

    /// Opens the tab before the open one, the last before the first.
    pub fn previous(&mut self)
        requires
            old(self).wf(),
        ensures
            final(self).titles == old(self).titles,
            final(self).index == position_before(
                old(self).index as int,
                old(self).titles.len() as int,
            ),
            final(self).wf(),
    {
        proof {
            lemma_position_before(self.index as int, self.titles.len() as int);
        }
        if self.index > 0 {
            self.index = self.index - 1;
        } else {
            self.index = self.titles.len() - 1;
        }
    }

    /// Opens the tab at `index`; where there is no such tab, the open one
    /// stays open.
    pub fn set_index(&mut self, index: usize)
        ensures
            final(self).titles == old(self).titles,
            final(self).index == if index < old(self).titles.len() {
                index
            } else {
                old(self).index
            },
            old(self).wf() ==> final(self).wf(),
    {
        if index < self.titles.len() {
            self.index = index;
        }
    }
}

/// Which item of a list is selected, if any.
#[derive(Clone, Copy, PartialEq, Eq, Structural, Debug)]
pub struct ListState {
    pub selected: Option<usize>,
}

impl ListState {
    /// Nothing selected.
    pub fn new() -> (r: ListState)
        ensures
            r.selected is None,
    {
        ListState { selected: None }
    }

    pub fn selected(&self) -> (r: Option<usize>)
        ensures
            r == self.selected,
    {
        self.selected
    }

    pub fn select(&mut self, index: Option<usize>)
        ensures
            final(self).selected == index,
    {
        self.selected = index;
    }
}

/// A tab's list of formula names, with its selection.
pub struct StatefulList<'a> {
    pub state: ListState,
    pub items: Vec<&'a str>,
}

impl<'a> StatefulList<'a> {
    /// The list has an item, and the selected one, if any, is in the list.
    pub open spec fn wf(&self) -> bool {
        &&& self.items.len() > 0
        &&& self.state.selected matches Some(i) ==> i < self.items.len()
    }

    /// The position of the item in focus: the selected one, or the first
    /// where nothing is selected.
    pub open spec fn focus(&self) -> int {
        match self.state.selected {
            Some(i) => i as int,
            None => 0,
        }
    }

    /// Whether the list has an item and the selected one, if any, is in it.
    pub fn is_valid(&self) -> (r: bool)
        ensures
            r == self.wf(),
    {
        self.items.len() > 0 && match self.state.selected() {
            Some(i) => i < self.items.len(),
            None => true,
        }
    }

    /// The list `items` with nothing selected.
    pub fn with_items(items: Vec<&'a str>) -> (r: StatefulList<'a>)
        ensures
            r.items == items,
            r.state.selected is None,
    {
        StatefulList { state: ListState::new(), items }
    }

    /// The item in focus: the selected one, or the first where nothing is
    /// selected.
    pub fn current_item(&self) -> (r: &'a str)
        requires
            self.wf(),
        ensures
            r == self.items@[self.focus()],
    {
        match self.state.selected() {
            Some(i) => self.items[i],
            None => self.items[0],
        }
    }

    /// Selects the item after the selected one, the first after the last,
    /// and the first where nothing was selected.
    pub fn next(&mut self)
        requires
            old(self).wf(),
        ensures
            final(self).items == old(self).items,
            final(self).state.selected == Some(
                selection_after(old(self).state.selected, old(self).items.len() as int) as usize,
            ),
            final(self).wf(),
    {
        let i: usize = match self.state.selected() {
            Some(i) => {
                proof {
                    lemma_position_after(i as int, self.items.len() as int);
                }
                if i >= self.items.len() - 1 {
                    0
                } else {
                    i + 1
                }
            },
            None => 0,
        };
        self.state.select(Some(i));
    }

    /// Selects the item before the selected one, the last before the first,
    /// and the first where nothing was selected.
    pub fn previous(&mut self)
        requires
            old(self).wf(),
        ensures
            final(self).items == old(self).items,
            final(self).state.selected == Some(
                selection_before(old(self).state.selected, old(self).items.len() as int) as usize,
            ),
            final(self).wf(),
    {
        let i: usize = match self.state.selected() {
            Some(i) => {
                proof {
                    lemma_position_before(i as int, self.items.len() as int);
                }
                if i == 0 {
                    self.items.len() - 1
                } else {
                    i - 1
                }
            },
            None => 0,
        };
        self.state.select(Some(i));
    }
}

} // verus!

//! Where the selection stands in a list that is longer than its window.

use vstd::prelude::*;

verus! {

/// A window of `height` rows on a list of `total` items. The window starts at the item `offset`,
/// and its row `selected` is the selected one.
#[derive(Debug, Clone, Copy, PartialEq, Eq, Structural)]
pub struct Cursor {
    pub selected: usize,
    pub offset: usize,
    pub total: usize,
    pub height: usize,
}

pub open spec fn least(a: int, b: int) -> int {
    if a <= b {
        a
    } else {
        b
    }
}

impl Cursor {
    /// The item that is selected.
    pub open spec fn index(self) -> int {
        self.offset + self.selected
    }

    /// The rows that hold items when the window is full.
    pub open spec fn rows(self) -> int {
        least(self.height as int, self.total as int)
    }

    /// There are items, and rows to show them in.
    pub open spec fn ready(self) -> bool {
        self.total > 0 && self.height > 0
    }

    /// The window is full, or shows all items, and the selection stands on one of its rows.
    pub open spec fn settled(self) -> bool {
        &&& self.ready()
        &&& self.selected < self.rows()
        &&& self.offset + self.rows() <= self.total
    }

    /// The selection stands on an item.
    pub open spec fn on_item(self) -> bool {
        self.index() < self.total
    }

    pub open spec fn at(self, selected: int, offset: int) -> Cursor {
        Cursor { selected: selected as usize, offset: offset as usize, ..self }
    }

    pub fn new(total: usize) -> (r: Cursor)
        ensures
            r == (Cursor { selected: 0, offset: 0, total, height: 0 }),
    {
        Cursor { selected: 0, offset: 0, total, height: 0 }
    }

    pub fn current(&self) -> (r: usize)
        requires
            self.index() <= usize::MAX,
        ensures
            r == self.index(),
    {
        self.offset + self.selected
    }

    pub open spec fn next(self) -> Cursor {
        if self.selected < least(self.total - 1, self.height - 1) {
            self.at(self.selected + 1, self.offset as int)
        } else if self.index() < self.total - 1 {
            self.at(self.selected as int, self.offset + 1)
        } else {
            self
        }
    }

    /// Selects the next item, and moves the window where the selection stands on its last row.
    pub fn select_next(&mut self)
        requires
            old(self).ready(),
            old(self).index() <= usize::MAX,
        ensures
            *final(self) == old(self).next(),
    {
        let last = if self.total <= self.height {
            self.total - 1
        } else {
            self.height - 1
        };
        if self.selected < last {
            self.selected = self.selected + 1;
        } else if self.selected + self.offset < self.total - 1 {
            self.offset = self.offset + 1;
        }
    }

    pub open spec fn prev(self) -> Cursor {
        if self.selected > 0 {
            self.at(self.selected - 1, self.offset as int)
        } else if self.offset > 0 {
            self.at(self.selected as int, self.offset - 1)
        } else {
            self
        }
    }

    pub fn select_prev(&mut self)
        ensures
            *final(self) == old(self).prev(),
    {
        if self.selected > 0 {
            self.selected = self.selected - 1;
        } else if self.offset > 0 {
            self.offset = self.offset - 1;
        }
    }

    pub fn select_first(&mut self)
        ensures
            *final(self) == old(self).at(0, 0),
    {
        self.selected = 0;
        self.offset = 0;
    }

    pub open spec fn last(self) -> Cursor {
        self.at(
            self.rows() - 1,
            if self.height < self.total {
                self.total - self.height
            } else {
                self.offset as int
            },
        )
    }

    pub fn select_last(&mut self)
        requires
            old(self).ready(),
        ensures
            *final(self) == old(self).last(),
    {
        self.selected = if self.height <= self.total {
            self.height - 1
        } else {
            self.total - 1
        };
        if self.height < self.total {
            self.offset = self.total - self.height;
        }
    }

    pub open spec fn down_one(self) -> Cursor {
        if self.offset + self.height < self.total {
            self.at(
                if self.selected > 0 {
                    self.selected - 1
                } else {
                    0
                },
                self.offset + 1,
            )
        } else {
            self
        }
    }

    /// Moves the window down a row.
    pub fn scroll_down(&mut self)
        requires
            old(self).offset + old(self).height <= usize::MAX,
        ensures
            *final(self) == old(self).down_one(),
    {
        if self.offset + self.height < self.total {
            self.offset = self.offset + 1;
            if self.selected > 0 {
                self.selected = self.selected - 1;
            }
        }
    }

    pub open spec fn up_one(self) -> Cursor {
        if self.offset > 0 {
            self.at(
                if self.selected < self.height - 1 {
                    self.selected + 1
                } else {
                    self.selected as int
                },
                self.offset - 1,
            )
        } else {
            self
        }
    }

    /// Moves the window up a row.
    pub fn scroll_up(&mut self)
        requires
            old(self).height > 0 || old(self).offset == 0,
        ensures
            *final(self) == old(self).up_one(),
    {
        if self.offset > 0 {
            self.offset = self.offset - 1;
            if self.selected < self.height - 1 {
                self.selected = self.selected + 1;
            }
        }
    }

    pub open spec fn down_by(self, n: int) -> Cursor {
        if self.offset + self.height + n < self.total {
            self.at(self.selected as int, self.offset + n)
        } else {
            let offset = self.total - self.rows();
            let selected = self.selected + n - (offset - self.offset);
            self.at(
                if selected >= self.rows() {
                    self.rows() - 1
                } else {
                    selected
                },
                offset,
            )
        }
    }

    /// Whether the window can move down by `n` rows: there are more rows than that below it, or it
    /// does not reach past the end of the list.
    pub open spec fn has_room(self, n: int) -> bool {
        &&& self.offset + self.height + n <= usize::MAX
        &&& self.offset + self.height + n < self.total || {
            &&& self.ready()
            &&& self.offset + self.rows() <= self.total
            &&& self.selected + n <= usize::MAX
        }
    }

    /// Moves the window down by some rows. What the window cannot move at the end of the list, the
    /// selection moves instead.
    fn scroll_down_height(&mut self, scroll_height: usize)
        requires
            old(self).has_room(scroll_height as int),
        ensures
            *final(self) == old(self).down_by(scroll_height as int),
    {
        if self.offset + self.height + scroll_height < self.total {
            self.offset = self.offset + scroll_height;
        } else {
            let old_offset = self.offset;
            let size = if self.height <= self.total {
                self.height
            } else {
                self.total
            };
            self.offset = self.total - size;
            self.selected = self.selected + (scroll_height - (self.offset - old_offset));
            if self.selected >= size {
                self.selected = size - 1;
            }
        }
    }

    pub open spec fn up_by(self, n: int) -> Cursor {
        if self.offset > n {
            self.at(self.selected as int, self.offset - n)
        } else {
            let left = n - self.offset;
            self.at(
                if self.selected >= left {
                    self.selected - left
                } else {
                    0
                },
                0,
            )
        }
    }

    /// Moves the window up by some rows. What the window cannot move at the start of the list, the
    /// selection moves instead.
    fn scroll_up_height(&mut self, scroll_height: usize)
        ensures
            *final(self) == old(self).up_by(scroll_height as int),
    {
        if self.offset > scroll_height {
            self.offset = self.offset - scroll_height;
        } else {
            let left = scroll_height - self.offset;
            self.offset = 0;
            self.selected = if self.selected >= left {
                self.selected - left
            } else {
                0
            };
        }
    }

    pub fn scroll_down_page(&mut self)
        requires
            old(self).has_room(old(self).height as int),
        ensures
            *final(self) == old(self).down_by(old(self).height as int),
    {
        self.scroll_down_height(self.height);
    }

    pub fn scroll_up_page(&mut self)
        ensures
            *final(self) == old(self).up_by(old(self).height as int),
    {
        self.scroll_up_height(self.height);
    }

    pub fn scroll_down_half(&mut self)
        requires
            old(self).has_room(old(self).height as int / 2),
        ensures
            *final(self) == old(self).down_by(old(self).height as int / 2),
    {
        self.scroll_down_height(self.height / 2);
    }

    pub fn scroll_up_half(&mut self)
        ensures
            *final(self) == old(self).up_by(old(self).height as int / 2),
    {
        self.scroll_up_height(self.height / 2);
    }

    /// Selects the first row of the window.
    pub fn select_high(&mut self)
        ensures
            *final(self) == old(self).at(0, old(self).offset as int),
    {
        self.selected = 0;
    }

    /// Selects the row in the middle of those that hold items.
    pub fn select_middle(&mut self)
        ensures
            *final(self) == old(self).at(old(self).rows() / 2, old(self).offset as int),
    {
        self.selected = if self.total > self.height {
            self.height / 2
        } else {
            self.total / 2
        };
    }

    /// Selects the last row that holds an item.
    pub fn select_low(&mut self)
        requires
            old(self).ready(),
        ensures
            *final(self) == old(self).at(old(self).rows() - 1, old(self).offset as int),
    {
        self.selected = if self.total > self.height {
            self.height - 1
        } else {
            self.total - 1
        };
    }

    pub open spec fn to(self, index: int) -> Cursor {
        if self.total > self.height {
            self.at(0, index)
        } else {
            self.at(index, self.offset as int)
        }
    }

    /// Selects an item: it comes to stand on the first row, or on its own row where the window
    /// shows all items.
    pub fn jump(&mut self, index: usize)
        ensures
            *final(self) == old(self).to(index as int),
    {
        if self.total > self.height {
            self.selected = 0;
            self.offset = index;
        } else {
            self.selected = index;
        }
    }

    /// Selects the item with this number, where there is one.
    pub fn select_index(&mut self, index: usize)
        ensures
            *final(self) == if index < old(self).total {
                old(self).to(index as int)
            } else {
                *old(self)
            },
    {
        if index < self.total {
            self.jump(index);
        }
    }

    pub fn reset_height(&mut self, height: usize)
        ensures
            *final(self) == (Cursor { height, ..*old(self) }),
    {
        self.height = height;
    }

    pub open spec fn pulled_back(self) -> Cursor {
        if self.total > self.height && self.total - self.height < self.offset {
            let diff = self.offset - (self.total - self.height);
            self.at(self.selected + diff, self.offset - diff)
        } else {
            self
        }
    }

    pub open spec fn pulled_in(self) -> Cursor {
        if self.selected >= self.height {
            let diff = self.selected - self.height + 1;
            self.at(self.selected - diff, self.offset + diff)
        } else {
            self
        }
    }

    pub open spec fn fitted(self, height: usize) -> Cursor {
        Cursor { height, ..self }.pulled_back().pulled_in()
    }

    /// Gives the window a height, and moves it so that it is full and shows the selected item.
    pub fn fit(&mut self, height: usize)
        requires
            height > 0,
            old(self).index() < usize::MAX,
        ensures
            *final(self) == old(self).fitted(height),
    {
        self.height = height;
        if self.total > self.height && self.total - self.height < self.offset {
            let diff = self.offset - (self.total - self.height);
            self.selected = self.selected + diff;
            self.offset = self.offset - diff;
        }
        if self.selected >= self.height {
            let diff = self.selected - self.height + 1;
            self.selected = self.selected - diff;
            self.offset = self.offset + diff;
        }
    }

    /// Every move keeps a settled window settled.
    pub proof fn moves_keep_settled(self, n: int)
        requires
            self.settled(),
            n >= 0,
        ensures
            self.next().settled(),
            self.prev().settled(),
            self.at(0, 0).settled(),
            self.last().settled(),
            self.down_one().settled(),
            self.up_one().settled(),
            self.down_by(n).settled(),
            self.up_by(n).settled(),
            self.at(0, self.offset as int).settled(),
            self.at(self.rows() / 2, self.offset as int).settled(),
            self.at(self.rows() - 1, self.offset as int).settled(),
    {
    }

    /// In a settled window the selection stands on an item.
    pub proof fn settled_is_on_item(self)
        requires
            self.settled(),
        ensures
            self.on_item(),
    {
    }

    /// The next item is one further on, up to the last; the one before is one back, down to the
    /// first.
    pub proof fn steps_are_single(self)
        requires
            self.settled(),
        ensures
            self.next().index() == least(self.index() + 1, self.total - 1),
            self.prev().index() == if self.index() > 0 {
                self.index() - 1
            } else {
                0
            },
    {
    }

    /// Going back undoes going on, wherever there is a next item.
    pub proof fn prev_undoes_next(self)
        requires
            self.settled(),
            self.index() < self.total - 1,
        ensures
            self.next().prev().index() == self.index(),
    {
    }

    /// The first and the last item can be selected from anywhere.
    pub proof fn ends_are_reached(self)
        requires
            self.settled(),
        ensures
            self.at(0, 0).index() == 0,
            self.last().index() == self.total - 1,
    {
    }

    /// A jump selects the item, and fitting the window afterwards keeps it selected in a settled
    /// window.
    pub proof fn jump_selects(self, index: int, height: usize)
        requires
            self.settled(),
            0 <= index < self.total,
            height > 0,
            height < self.total || self.total <= self.height,
        ensures
            self.to(index).index() == index,
            self.to(index).fitted(height).index() == index,
            self.to(index).fitted(height).settled(),
    {
    }

    /// Fitting the window to a height never changes which item is selected, and settles the
    /// window. A window that showed a later part of the list keeps showing it when it grows to
    /// hold all items, and is left out.
    pub proof fn fitting_keeps_selection(self, height: usize)
        requires
            self.on_item(),
            height > 0,
            height < self.total || self.offset == 0,
        ensures
            self.fitted(height).index() == self.index(),
            self.fitted(height).settled(),
    {
    }

    /// A settled window that keeps its height stays as it is.
    pub proof fn fitting_is_stable(self)
        requires
            self.settled(),
        ensures
            self.fitted(self.height) == self,
    {
    }

    /// Scrolling by a page or less moves the selection by that many items, up to the ends.
    pub proof fn scrolling_moves_by(self, n: int)
        requires
            self.settled(),
            0 <= n <= self.height,
        ensures
            self.down_by(n).index() == least(self.index() + n, self.total - 1),
            self.up_by(n).index() == if self.index() >= n {
                self.index() - n
            } else {
                0
            },
    {
    }
}

} // verus!

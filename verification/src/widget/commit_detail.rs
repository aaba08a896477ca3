//! How far the details of a commit are scrolled.

use vstd::prelude::*;

verus! {

/// The first line that is seen, and the number of lines that were seen when the details were last
/// drawn.
#[derive(Debug, Clone, Copy, PartialEq, Eq, Structural)]
pub struct CommitDetailState {
    pub height: usize,
    pub offset: usize,
}

impl Default for CommitDetailState {
    fn default() -> (r: CommitDetailState)
        ensures
            r == (CommitDetailState { height: 0, offset: 0 }),
    {
        CommitDetailState { height: 0, offset: 0 }
    }
}

/// A line some lines on, as far as lines can be counted.
pub open spec fn lines_on(offset: int, n: int) -> usize {
    if offset + n <= usize::MAX {
        (offset + n) as usize
    } else {
        usize::MAX
    }
}

/// A line some lines back, down to the first.
pub open spec fn lines_back(offset: int, n: int) -> usize {
    if offset >= n {
        (offset - n) as usize
    } else {
        0
    }
}

impl CommitDetailState {
    /// The state scrolled on by `count` times `n` lines.
    pub open spec fn down_by(self, count: int, n: int) -> CommitDetailState {
        CommitDetailState { offset: lines_on(self.offset as int, count * n), ..self }
    }

    /// The state scrolled back by `count` times `n` lines.
    pub open spec fn up_by(self, count: int, n: int) -> CommitDetailState {
        CommitDetailState { offset: lines_back(self.offset as int, count * n), ..self }
    }

    fn forward(&mut self, count: usize, n: usize)
        ensures
            *final(self) == old(self).down_by(count as int, n as int),
    {
        let ghost start = *self;
        let mut i: usize = 0;
        assert(0 * n == 0) by (nonlinear_arith);
        while i < count
            invariant
                i <= count,
                *self == start.down_by(i as int, n as int),
            decreases count - i,
        {
            assert((i + 1) * n == i * n + n) by (nonlinear_arith);
            assert(i * n >= 0) by (nonlinear_arith);
            self.offset = self.offset.saturating_add(n);
            i = i + 1;
        }
    }

    fn back(&mut self, count: usize, n: usize)
        ensures
            *final(self) == old(self).up_by(count as int, n as int),
    {
        let ghost start = *self;
        let mut i: usize = 0;
        assert(0 * n == 0) by (nonlinear_arith);
        while i < count
            invariant
                i <= count,
                *self == start.up_by(i as int, n as int),
            decreases count - i,
        {
            assert((i + 1) * n == i * n + n) by (nonlinear_arith);
            assert(i * n >= 0) by (nonlinear_arith);
            self.offset = self.offset.saturating_sub(n);
            i = i + 1;
        }
    }

    pub fn scroll_down(&mut self, count: usize)
        ensures
            *final(self) == old(self).down_by(count as int, 1),
    {
        self.forward(count, 1);
    }

    pub fn scroll_up(&mut self, count: usize)
        ensures
            *final(self) == old(self).up_by(count as int, 1),
    {
        self.back(count, 1);
    }

    pub fn scroll_page_down(&mut self, count: usize)
        ensures
            *final(self) == old(self).down_by(count as int, old(self).height as int),
    {
        let height = self.height;
        self.forward(count, height);
    }

    pub fn scroll_page_up(&mut self, count: usize)
        ensures
            *final(self) == old(self).up_by(count as int, old(self).height as int),
    {
        let height = self.height;
        self.back(count, height);
    }

    pub fn scroll_half_page_down(&mut self, count: usize)
        ensures
            *final(self) == old(self).down_by(count as int, old(self).height as int / 2),
    {
        let half = self.height / 2;
        self.forward(count, half);
    }

    pub fn scroll_half_page_up(&mut self, count: usize)
        ensures
            *final(self) == old(self).up_by(count as int, old(self).height as int / 2),
    {
        let half = self.height / 2;
        self.back(count, half);
    }

    pub fn select_first(&mut self)
        ensures
            *final(self) == (CommitDetailState { offset: 0, ..*old(self) }),
    {
        self.offset = 0;
    }

    /// Scrolls to the end, wherever it is.
    pub fn select_last(&mut self)
        ensures
            *final(self) == (CommitDetailState { offset: usize::MAX, ..*old(self) }),
    {
        self.offset = usize::MAX;
    }

    /// The state in a window of some lines on a text of some lines.
    pub open spec fn fitted(self, line_count: usize, height: usize) -> CommitDetailState {
        let most = lines_back(line_count as int, height as int);
        CommitDetailState {
            height,
            offset: if self.offset <= most {
                self.offset
            } else {
                most
            },
        }
    }

    /// Keeps the window filled, where there are lines to fill it.
    pub fn update_state(&mut self, line_count: usize, height: usize)
        ensures
            *final(self) == old(self).fitted(line_count, height),
    {
        self.height = height;
        let most = line_count.saturating_sub(height);
        if self.offset > most {
            self.offset = most;
        }
    }
}

/// After the end was asked for, the last line is seen, and the window is full where it can be.
pub proof fn end_is_seen(s: CommitDetailState, line_count: usize, height: usize)
    requires
        height > 0,
    ensures
        ({
            let t = (CommitDetailState { offset: usize::MAX, ..s }).fitted(line_count, height);
            &&& t.offset + height >= line_count
            &&& line_count >= height ==> t.offset + height == line_count
        }),
{
}

} // verus!

//! Moves in the list of commits, and moves repeated.

use vstd::prelude::*;
use crate::git::CommitHash;
use crate::widget::commit_list;
use crate::widget::commit_list::CommitListState;
use crate::widget::cursor::Cursor;

verus! {

/// A move that a number before its key repeats.
#[derive(Debug, Clone, Copy, PartialEq, Eq, Structural)]
pub enum Move {
    Next,
    Prev,
    Parent,
    ScrollDown,
    ScrollUp,
    PageDown,
    PageUp,
    HalfPageDown,
    HalfPageUp,
}

impl Move {
    /// Whether the move can be made.
    pub open spec fn allowed(self, s: commit_list::ListStateView) -> bool {
        let c = s.cursor;
        match self {
            Move::Next => c.ready() && c.index() <= usize::MAX,
            Move::Parent => c.on_item() && (commit_list::parent_of(s.infos, c.index()) matches Some(
                i,
            ) ==> c.ready() && i < s.infos.len()),
            Move::ScrollDown => c.offset + c.height <= usize::MAX,
            Move::ScrollUp => c.height > 0 || c.offset == 0,
            Move::PageDown => c.has_room(c.height as int),
            Move::HalfPageDown => c.has_room(c.height as int / 2),
            Move::Prev | Move::PageUp | Move::HalfPageUp => true,
        }
    }

    /// Where the move leads.
    pub open spec fn target(self, s: commit_list::ListStateView) -> Cursor {
        let c = s.cursor;
        match self {
            Move::Next => c.next(),
            Move::Prev => c.prev(),
            Move::Parent => match commit_list::parent_of(s.infos, c.index()) {
                Some(i) => commit_list::steps(c, i - c.index()),
                None => c,
            },
            Move::ScrollDown => c.down_one(),
            Move::ScrollUp => c.up_one(),
            Move::PageDown => c.down_by(c.height as int),
            Move::PageUp => c.up_by(c.height as int),
            Move::HalfPageDown => c.down_by(c.height as int / 2),
            Move::HalfPageUp => c.up_by(c.height as int / 2),
        }
    }

    /// The list after the move was made some times.
    pub open spec fn repeated(self, s: commit_list::ListStateView, n: int) -> commit_list::ListStateView
        decreases n,
    {
        if n <= 0 {
            s
        } else {
            let t = self.repeated(s, n - 1);
            t.moved(self.target(t))
        }
    }

    /// Whether the move can be made some times over.
    pub open spec fn repeatable(self, s: commit_list::ListStateView, n: int) -> bool {
        forall|k: int| 0 <= k < n ==> self.allowed(#[trigger] self.repeated(s, k))
    }

    /// A move changes nothing but where the selection stands.
    pub proof fn repeating_moves_only(self, s: commit_list::ListStateView, n: int)
        ensures
            self.repeated(s, n) == s.moved(self.repeated(s, n).cursor),
        decreases n,
    {
        if n > 0 {
            self.repeating_moves_only(s, n - 1);
        } else {
            assert(s == s.moved(s.cursor));
        }
    }
}

/// In a settled window every move can be made as often as one likes, and leaves a settled window.
/// The move to a parent is left out: it asks that the parents follow the commits in the list.
pub proof fn settled_lists_take_moves(m: Move, s: commit_list::ListStateView, n: int)
    requires
        s.cursor.settled(),
        s.cursor.total + s.cursor.height + s.cursor.height <= usize::MAX,
        m != Move::Parent,
    ensures
        m.repeatable(s, n),
        0 <= n ==> m.repeated(s, n).cursor.settled(),
        m.repeated(s, n).cursor.total == s.cursor.total,
        m.repeated(s, n).cursor.height == s.cursor.height,
    decreases n,
{
    if n > 0 {
        settled_lists_take_moves(m, s, n - 1);
        let t = m.repeated(s, n - 1);
        t.cursor.moves_keep_settled(t.cursor.height as int);
        t.cursor.moves_keep_settled(t.cursor.height as int / 2);
        assert forall|k: int| 0 <= k < n implies m.allowed(#[trigger] m.repeated(s, k)) by {}
    }
}

fn has_room(c: Cursor, n: usize) -> (r: bool)
    ensures
        r == c.has_room(n as int),
{
    if c.height > usize::MAX - c.offset || n > usize::MAX - (c.offset + c.height) {
        return false;
    }
    if c.offset + c.height + n < c.total {
        return true;
    }
    let rows = if c.height <= c.total {
        c.height
    } else {
        c.total
    };
    c.total > 0 && c.height > 0 && c.offset <= c.total - rows && c.selected <= usize::MAX - n
}

impl<'a> CommitListState<'a> {
    /// Makes a move some times over.
    pub fn repeat(&mut self, m: Move, count: usize)
        requires
            old(self).wf(),
            m.repeatable(old(self)@, count as int),
        ensures
            final(self).wf(),
            final(self)@ == m.repeated(old(self)@, count as int),
    {
        let ghost before = self@;
        let mut i: usize = 0;
        while i < count
            invariant
                i <= count,
                self.wf(),
                self@ == m.repeated(before, i as int),
                m.repeatable(before, count as int),
            decreases count - i,
        {
            assert(m.allowed(m.repeated(before, i as int)));
            match m {
                Move::Next => self.select_next(),
                Move::Prev => self.select_prev(),
                Move::Parent => self.select_parent(),
                Move::ScrollDown => self.scroll_down(),
                Move::ScrollUp => self.scroll_up(),
                Move::PageDown => self.scroll_down_page(),
                Move::PageUp => self.scroll_up_page(),
                Move::HalfPageDown => self.scroll_down_half(),
                Move::HalfPageUp => self.scroll_up_half(),
            }
            assert(self@ == m.repeated(before, i + 1));
            i = i + 1;
        }
    }

    fn allows(&self, m: Move, c: Cursor) -> (r: bool)
        requires
            self.wf(),
            c.total == self@.cursor.total,
        ensures
            r == m.allowed(self@.moved(c)),
    {
        proof {
            self.sizes_agree();
        }
        match m {
            Move::Next => c.total > 0 && c.height > 0 && c.offset <= usize::MAX - c.selected,
            Move::Parent => {
                if c.offset > usize::MAX - c.selected {
                    return false;
                }
                let at = c.current();
                if at >= c.total {
                    return false;
                }
                match self.parent_place(at) {
                    Some(i) => c.height > 0 && i < c.total,
                    None => true,
                }
            },
            Move::ScrollDown => c.offset <= usize::MAX - c.height,
            Move::ScrollUp => c.height > 0 || c.offset == 0,
            Move::PageDown => has_room(c, c.height),
            Move::HalfPageDown => has_room(c, c.height / 2),
            Move::Prev | Move::PageUp | Move::HalfPageUp => true,
        }
    }

    fn lead(&self, m: Move, c: Cursor) -> (r: Cursor)
        requires
            self.wf(),
            c.total == self@.cursor.total,
            m.allowed(self@.moved(c)),
        ensures
            r == m.target(self@.moved(c)),
            r.total == c.total,
    {
        proof {
            self.sizes_agree();
        }
        let mut r = c;
        match m {
            Move::Next => r.select_next(),
            Move::Prev => r.select_prev(),
            Move::Parent => {
                match self.parent_place(c.current()) {
                    Some(goal) => {
                        let from = c.current();
                        proof {
                            commit_list::find_hash_bounds(
                                self@.infos,
                                self@.infos[from as int].commit.parents[0],
                                from as int,
                            );
                        }
                        let mut k: usize = 0;
                        while k < goal - from
                            invariant
                                from <= goal < c.total,
                                c.ready(),
                                c.index() == from,
                                k <= goal - from,
                                r == commit_list::steps(c, k as int),
                                r.total == c.total,
                            decreases goal - from - k,
                        {
                            proof {
                                commit_list::steps_move(c, k as int);
                            }
                            r.select_next();
                            k = k + 1;
                        }
                    },
                    None => {},
                }
            },
            Move::ScrollDown => r.scroll_down(),
            Move::ScrollUp => r.scroll_up(),
            Move::PageDown => r.scroll_down_page(),
            Move::PageUp => r.scroll_up_page(),
            Move::HalfPageDown => r.scroll_down_half(),
            Move::HalfPageUp => r.scroll_up_half(),
        }
        r
    }

    /// Whether a move can be made and leads to a commit.
    pub fn leads_to_item(&self, m: Move) -> (r: bool)
        requires
            self.wf(),
        ensures
            r == (m.allowed(self@) && m.target(self@).on_item()),
    {
        let c = self.cursor();
        assert(self@ == self@.moved(c));
        if !self.allows(m, c) {
            return false;
        }
        let to = self.lead(m, c);
        to.offset <= usize::MAX - to.selected && to.current() < to.total
    }

    /// The hash of the commit that a move leads to, where it can be made and leads to one.
    pub fn hash_after(&self, m: Move) -> (r: Option<&CommitHash>)
        requires
            self.wf(),
        ensures
            match r {
                Some(h) => m.allowed(self@) && m.target(self@).on_item() && h@ == self@.moved(
                    m.target(self@),
                ).selected().commit.hash,
                None => !(m.allowed(self@) && m.target(self@).on_item()),
            },
    {
        if !self.leads_to_item(m) {
            return None;
        }
        proof {
            self.sizes_agree();
        }
        let c = self.cursor();
        assert(self@ == self@.moved(c));
        let to = self.lead(m, c);
        Some(self.hash_at(to.current()))
    }

    /// Where a move leads that is made some times over from a place, where it can be.
    pub fn place_after(&self, start: Cursor, m: Move, count: usize) -> (r: Option<Cursor>)
        requires
            self.wf(),
            start.total == self@.cursor.total,
        ensures
            match r {
                Some(c) => m.repeatable(self@.moved(start), count as int) && self@.moved(c)
                    == m.repeated(self@.moved(start), count as int) && c.total == start.total,
                None => !m.repeatable(self@.moved(start), count as int),
            },
    {
        let ghost from = self@.moved(start);
        let mut c = start;
        let mut i: usize = 0;
        while i < count
            invariant
                i <= count,
                self.wf(),
                from == self@.moved(start),
                start.total == self@.cursor.total,
                c.total == start.total,
                self@.moved(c) == m.repeated(from, i as int),
                m.repeatable(from, i as int),
            decreases count - i,
        {
            if !self.allows(m, c) {
                assert(!m.allowed(m.repeated(from, i as int)));
                return None;
            }
            c = self.lead(m, c);
            assert(self@.moved(c) == m.repeated(from, i + 1));
            i = i + 1;
        }
        Some(c)
    }

    /// Whether a move can be made some times over.
    pub fn can_repeat(&self, m: Move, count: usize) -> (r: bool)
        requires
            self.wf(),
        ensures
            r == m.repeatable(self@, count as int),
    {
        let c = self.cursor();
        assert(self@ == self@.moved(c));
        self.place_after(c, m, count).is_some()
    }
}

} // verus!

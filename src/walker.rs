use vstd::prelude::*;

use crate::walk::{pending_views, Pending, PendingView};

verus! {

/// The work list of a depth-first walk, kept explicitly instead of on the
/// call stack. Work taken off the front comes out in pre-order: the work a
/// directory brings is put in front of what was already waiting.
pub struct Walker {
    /// The pending work, the next item last.
    stack: Vec<Pending>,
}

impl View for Walker {
    type V = Seq<PendingView>;

    /// The pending work in the order in which it will be taken.
    closed spec fn view(&self) -> Seq<PendingView> {
        Seq::new(self.stack@.len(), |i: int| self.stack@[self.stack@.len() - 1 - i]@)
    }
}

impl Walker {
    /// A walk that starts at the root `path`.
    pub fn new(path: &str) -> (r: Walker)
        ensures
            r@ == seq![PendingView::Visit { path: path@, initial: true }],
    {
        let mut stack: Vec<Pending> = Vec::new();
        stack.push(Pending::Visit { path: path.to_owned(), initial: true });
        let r = Walker { stack };
        proof {
            assert(r@ =~= seq![PendingView::Visit { path: path@, initial: true }]);
        }
        r
    }

    /// Whether no work is left.
    pub fn is_done(&self) -> (r: bool)
        ensures
            r == (self@.len() == 0),
    {
        self.stack.len() == 0
    }

    /// Takes the next piece of work, if any is left.
    pub fn next(&mut self) -> (r: Option<Pending>)
        ensures
            old(self)@.len() == 0 ==> r is None && final(self)@ == old(self)@,
            old(self)@.len() > 0 ==> (r matches Some(p) && p@ == old(self)@[0]),
            old(self)@.len() > 0 ==> final(self)@ == old(self)@.skip(1),
    {
        let r = self.stack.pop();
        proof {
            assert(final(self)@ =~= old(self)@.skip(1) || old(self)@.len() == 0);
        }
        r
    }

    /// Puts `work` in front of what is waiting, keeping its order.
    pub fn push_front(&mut self, work: Vec<Pending>)
        ensures
            final(self)@ == pending_views(work@) + old(self)@,
    {
        let mut work = work;
        let ghost all = work@;
        let ghost start = self@;
        while work.len() > 0
            invariant
                all.len() >= work@.len(),
                work@ == all.subrange(0, work@.len() as int),
                self@ == pending_views(all.subrange(work@.len() as int, all.len() as int)) + start,
            decreases work.len(),
        {
            let ghost before = self@;
            let ghost n = work@.len();
            let p = work.pop().unwrap();
            self.stack.push(p);
            proof {
                assert(work@ =~= all.subrange(0, work@.len() as int));
                assert(pending_views(all.subrange(n - 1, all.len() as int)) =~= seq![p@]
                    + pending_views(all.subrange(n as int, all.len() as int)));
                assert(self@ =~= seq![p@] + before);
            }
        }
        proof {
            assert(all.subrange(0, all.len() as int) =~= all);
        }
    }
}

} // verus!

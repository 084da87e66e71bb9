//! The numbers of the generated cases.

use vstd::prelude::*;

verus! {

/// Hands out the numbers by which generated cases are named. It counts
/// upwards only, so that no number is handed out twice, whatever is expanded
/// with it.
#[derive(Debug)]
pub struct CaseCounter {
    next: usize,
}

impl CaseCounter {
    /// The number that is handed out next.
    pub closed spec fn next_id(&self) -> nat {
        self.next as nat
    }

    /// A counter that starts at zero.
    pub fn new() -> (counter: CaseCounter)
        ensures
            counter.next_id() == 0,
    {
        CaseCounter { next: 0 }
    }

    /// Takes `count` numbers in a row and returns the first of them. Where
    /// the counter has no room for that many, it takes none.
    pub fn reserve(&mut self, count: usize) -> (first: Option<usize>)
        ensures
            match first {
                Some(id) => {
                    &&& id == old(self).next_id()
                    &&& id + count <= usize::MAX
                    &&& final(self).next_id() == id + count
                },
                None => old(self).next_id() + count > usize::MAX && *final(self) == *old(self),
            },
    {
        match self.next.checked_add(count) {
            Some(end) => {
                let first = self.next;
                self.next = end;
                Some(first)
            },
            None => None,
        }
    }
}

} // verus!

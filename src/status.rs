use vstd::prelude::*;

verus! {

/// Which of the two lists is active (the "tab").
#[derive(PartialEq, Eq, Structural, Clone, Copy, Debug)]
pub enum Status {
    Todo,
    Done,
}

/// The other tab.
pub open spec fn other(s: Status) -> Status {
    match s {
        Status::Todo => Status::Done,
        Status::Done => Status::Todo,
    }
}

impl Status {
    /// Returns the other variant.
    pub fn toggle(&self) -> (r: Self)
        ensures
            r == other(*self),
            r != *self,
    {
        match self {
            Status::Todo => Status::Done,
            Status::Done => Status::Todo,
        }
    }
}

} // verus!

//! Who holds the program model: the guard that keeps writers alone.
use vstd::prelude::*;

verus! {

/// How the model is held at present, apart from the call that asks.
#[derive(Clone, Copy, Debug, PartialEq, Eq, Structural)]
pub enum Access {
    /// Nobody holds it.
    Idle,
    /// So many readers hold it; the number is not zero.
    Shared(u64),
    /// One writer holds it.
    Exclusive,
}

impl Access {
    /// Whether the state is one that the guard can be in.
    pub open spec fn wf(self) -> bool {
        self matches Access::Shared(n) ==> n >= 1
    }

    /// Whether a reader may come in: no writer holds the model.
    pub open spec fn readable(self) -> bool {
        !(self is Exclusive)
    }

    /// Whether a writer may come in: nobody holds the model.
    pub open spec fn writable(self) -> bool {
        self is Idle
    }

    /// The state with one more reader, where one more can be admitted and counted.
    pub open spec fn with_reader(self) -> Option<Access> {
        match self {
            Access::Idle => Some(Access::Shared(1)),
            Access::Shared(n) => if n < u64::MAX {
                Some(Access::Shared((n + 1) as u64))
            } else {
                None
            },
            Access::Exclusive => None,
        }
    }

    /// The state with a writer, where one can be admitted.
    pub open spec fn with_writer(self) -> Option<Access> {
        match self {
            Access::Idle => Some(Access::Exclusive),
            _ => None,
        }
    }

    /// The state after one holder has let go: one reader fewer, or no writer.
    pub open spec fn released(self) -> Access {
        match self {
            Access::Idle => Access::Idle,
            Access::Shared(n) => if n > 1 {
                Access::Shared((n - 1) as u64)
            } else {
                Access::Idle
            },
            Access::Exclusive => Access::Idle,
        }
    }

    /// Whether a reader may come in.
    pub fn is_readable(&self) -> (r: bool)
        ensures
            r == self.readable(),
    {
        match self {
            Access::Exclusive => false,
            _ => true,
        }
    }

    /// Whether a writer may come in.
    pub fn is_writable(&self) -> (r: bool)
        ensures
            r == self.writable(),
    {
        match self {
            Access::Idle => true,
            _ => false,
        }
    }

    /// Admits one more reader, if that can be done.
    pub fn admit_reader(&self) -> (r: Option<Access>)
        ensures
            r == self.with_reader(),
    {
        match self {
            Access::Idle => Some(Access::Shared(1)),
            Access::Shared(n) => if *n < u64::MAX {
                Some(Access::Shared(*n + 1))
            } else {
                None
            },
            Access::Exclusive => None,
        }
    }

    /// Admits a writer, if that can be done.
    pub fn admit_writer(&self) -> (r: Option<Access>)
        ensures
            r == self.with_writer(),
    {
        match self {
            Access::Idle => Some(Access::Exclusive),
            _ => None,
        }
    }

    /// Lets one holder go.
    pub fn release(&self) -> (r: Access)
        ensures
            r == self.released(),
    {
        match self {
            Access::Idle => Access::Idle,
            Access::Shared(n) => if *n > 1 {
                Access::Shared(*n - 1)
            } else {
                Access::Idle
            },
            Access::Exclusive => Access::Idle,
        }
    }
}

} // verus!

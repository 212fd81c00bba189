//! A value that is created in an incomplete state and later completed.

use vstd::prelude::*;

verus! {

/// A value built in two stages: first the incomplete input, later the
/// completed result.
pub enum Completion<I, C> {
    /// Still holds the boxed input it was created from.
    Incomplete(Option<Box<I>>),
    /// Holds the completed result.
    Complete(C),
}

impl<I, C> Completion<I, C> {
    /// A completion always holds either its input or its result; the inner
    /// option is only briefly empty while completing.
    pub open spec fn wf(&self) -> bool {
        match *self {
            Completion::Incomplete(inner) => inner is Some,
            Completion::Complete(_) => true,
        }
    }

    /// The stored input of an incomplete value.
    pub open spec fn input(&self) -> I {
        *self->Incomplete_0->Some_0
    }

    /// A new, incomplete value holding the input.
    pub fn new(value: I) -> (r: Completion<I, C>)
        ensures
            r.wf(),
            r is Incomplete,
            r.input() == value,
    {
        Completion::Incomplete(Some(Box::new(value)))
    }

    /// Completes the value by applying `func` to the stored input.  May only
    /// be called once, on an incomplete value.
    pub fn complete<F: FnOnce(I) -> C>(&mut self, func: F)
        requires
            old(self).wf(),
            *old(self) is Incomplete,
            call_requires(func, (old(self).input(),)),
        ensures
            final(self).wf(),
            *final(self) is Complete,
            call_ensures(func, (old(self).input(),), final(self)->Complete_0),
    {
        let mut taken: Completion<I, C> = Completion::Incomplete(None);
        std::mem::swap(self, &mut taken);
        match taken {
            Completion::Incomplete(opt) => {
                match opt {
                    Some(boxed) => {
                        *self = Completion::Complete(func(*boxed));
                    },
                    None => {
                        proof {
                            assert(false);
                        }
                    },
                }
            },
            Completion::Complete(_) => {
                proof {
                    assert(false);
                }
            },
        }
    }

    /// Whether the value has been completed.
    pub fn is_complete(&self) -> (r: bool)
        ensures
            r == (*self is Complete),
    {
        match self {
            Completion::Incomplete(_) => false,
            Completion::Complete(_) => true,
        }
    }

    /// Whether the value is still incomplete.
    pub fn is_incomplete(&self) -> (r: bool)
        ensures
            r == (*self is Incomplete),
    {
        !self.is_complete()
    }

    /// The completed result, if the value has been completed.
    pub fn get(&self) -> (r: Option<&C>)
        ensures
            match r {
                Some(c) => *self is Complete && *c == self->Complete_0,
                None => *self is Incomplete,
            },
    {
        match self {
            Completion::Incomplete(_) => None,
            Completion::Complete(value) => Some(value),
        }
    }
}

} // verus!

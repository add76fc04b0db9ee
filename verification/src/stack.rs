//! The call stack: at most sixteen return addresses, last in, first out.

use crate::fault::Fault;
use vstd::prelude::*;

verus! {

/// Number of return addresses that the stack can hold.
pub const STACK_LEN: usize = 16;

/// The call stack.
///
/// Its view is the sequence of return addresses that it holds, oldest first.
/// It never holds more than `STACK_LEN` of them.
#[derive(Debug)]
pub struct Stack {
    data: [u16; STACK_LEN],
    cur_idx: usize,
}

impl View for Stack {
    type V = Seq<u16>;

    closed spec fn view(&self) -> Seq<u16> {
        self.data@.subrange(0, self.cur_idx as int)
    }
}

impl Stack {
    #[verifier::type_invariant]
    spec fn within_capacity(self) -> bool {
        self.cur_idx <= STACK_LEN
    }

    /// An empty stack.
    pub fn new() -> (stack: Stack)
        ensures
            stack@ == Seq::<u16>::empty(),
    {
        Stack { data: [0; STACK_LEN], cur_idx: 0 }
    }

    /// The number of return addresses held, which never exceeds `STACK_LEN`.
    pub fn depth(&self) -> (n: usize)
        ensures
            n == self@.len(),
            n <= STACK_LEN,
    {
        proof {
            use_type_invariant(self);
        }
        self.cur_idx
    }

    /// Pushes `val`, unless the stack is full.
    ///
    /// A full stack is left as it is, and the fault is `StackOverflow`.
    pub fn push(&mut self, val: u16) -> (r: Result<(), Fault>)
        ensures
            match pushed(old(self)@, val) {
                Ok(stack) => r is Ok && final(self)@ == stack,
                Err(fault) => r == Err::<(), Fault>(fault) && final(self)@ == old(self)@,
            },
    {
        proof {
            use_type_invariant(&*self);
        }
        if self.cur_idx >= STACK_LEN {
            return Err(Fault::StackOverflow);
        }
        self.data[self.cur_idx] = val;
        self.cur_idx += 1;
        Ok(())
    }

    /// Pops the address pushed last, unless the stack is empty.
    ///
    /// An empty stack is left as it is, and the fault is `StackUnderflow`.
    pub fn pop(&mut self) -> (r: Result<u16, Fault>)
        ensures
            match popped(old(self)@) {
                Ok((val, stack)) => r == Ok::<u16, Fault>(val) && final(self)@ == stack,
                Err(fault) => r == Err::<u16, Fault>(fault) && final(self)@ == old(self)@,
            },
    {
        proof {
            use_type_invariant(&*self);
        }
        match self.cur_idx.checked_sub(1) {
            Some(idx) => {
                self.cur_idx = idx;
                Ok(self.data[self.cur_idx])
            },
            None => Err(Fault::StackUnderflow),
        }
    }
}

/// What a push of `val` makes of the stack `stack`: the stack with `val` on
/// top, or `StackOverflow` when all `STACK_LEN` slots are taken.
pub open spec fn pushed(stack: Seq<u16>, val: u16) -> Result<Seq<u16>, Fault> {
    if stack.len() < STACK_LEN {
        Ok(stack.push(val))
    } else {
        Err(Fault::StackOverflow)
    }
}

/// What a pop makes of the stack `stack`: its top and the rest, or
/// `StackUnderflow` when it is empty.
pub open spec fn popped(stack: Seq<u16>) -> Result<(u16, Seq<u16>), Fault> {
    if stack.len() > 0 {
        Ok((stack.last(), stack.drop_last()))
    } else {
        Err(Fault::StackUnderflow)
    }
}

/// A push onto a stack with a free slot succeeds, and a pop right after it
/// hands back the pushed address and the stack as it was before the push.
pub proof fn lemma_push_then_pop(stack: Seq<u16>, val: u16)
    requires
        stack.len() < STACK_LEN,
    ensures
        pushed(stack, val) matches Ok(after) && popped(after) == Ok::<(u16, Seq<u16>), Fault>(
            (val, stack),
        ),
{
    assert(stack.push(val).drop_last() == stack);
}

} // verus!

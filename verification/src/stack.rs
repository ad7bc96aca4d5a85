//! The call stack: a fixed-capacity LIFO of 16-bit return addresses.
use crate::Fault;
use vstd::prelude::*;

verus! {

pub const STACK_MAX: usize = 16;

/// A LIFO of at most 16 return addresses. Pushing onto a full stack and
/// popping from an empty one are reported as faults, never performed.
pub struct Stack {
    stack: [u16; 16],
    stack_pointer: usize,
}

impl View for Stack {
    type V = Seq<u16>;

    /// The abstract contents, bottom of the stack first.
    closed spec fn view(&self) -> Seq<u16> {
        self.stack@.take(self.stack_pointer as int)
    }
}

impl Stack {
    /// The stack pointer never runs past the fixed capacity.
    pub closed spec fn wf(&self) -> bool {
        self.stack_pointer <= STACK_MAX
    }

    /// A new, empty stack.
    pub fn default() -> (r: Self)
        ensures
            r.wf(),
            r@ == Seq::<u16>::empty(),
    {
        let stack = Stack { stack: [0; 16], stack_pointer: 0 };
        proof {
            assert(stack@ =~= Seq::<u16>::empty());
        }
        stack
    }

    /// Push a return address; a push onto a full stack is a fault and
    /// leaves the stack as it was.
    pub fn push(&mut self, address: u16) -> (r: Result<(), Fault>)
        requires
            old(self).wf(),
        ensures
            final(self).wf(),
            old(self)@.len() < STACK_MAX ==> r == Ok::<(), Fault>(())
                && final(self)@ == old(self)@.push(address),
            old(self)@.len() >= STACK_MAX ==> r == Err::<(), Fault>(Fault::StackOverflow)
                && final(self)@ == old(self)@,
    {
        if self.stack_pointer >= STACK_MAX {
            return Err(Fault::StackOverflow);
        }
        self.stack[self.stack_pointer] = address;
        self.stack_pointer = self.stack_pointer + 1;
        proof {
            assert(self@ =~= old(self)@.push(address));
        }
        Ok(())
    }

    /// How many return addresses the stack currently holds.
    pub fn len(&self) -> (n: usize)
        requires
            self.wf(),
        ensures
            n == self@.len(),
    {
        self.stack_pointer
    }

    /// Pop the most recent return address; a pop from an empty stack is a
    /// fault and leaves the stack as it was.
    pub fn pop(&mut self) -> (r: Result<u16, Fault>)
        requires
            old(self).wf(),
        ensures
            final(self).wf(),
            old(self)@.len() > 0 ==> r == Ok::<u16, Fault>(old(self)@.last())
                && final(self)@ == old(self)@.drop_last(),
            old(self)@.len() == 0 ==> r == Err::<u16, Fault>(Fault::StackUnderflow)
                && final(self)@ == old(self)@,
    {
        if self.stack_pointer == 0 {
            return Err(Fault::StackUnderflow);
        }
        self.stack_pointer = self.stack_pointer - 1;
        proof {
            assert(self@ =~= old(self)@.drop_last());
        }
        Ok(self.stack[self.stack_pointer])
    }
}

} // verus!

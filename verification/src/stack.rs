//! The call stack: a bounded sequence of return addresses.

use vstd::prelude::*;
use crate::fault::Fault;

verus! {

/// The number of return addresses that the stack can hold.
pub const CAPACITY: usize = 16;

/// A stack of at most [`CAPACITY`] return addresses, the most recent last.
#[derive(Debug, Clone, Copy)]
pub struct Stack {
    slots: [u16; 16],
    used: usize,
}

impl View for Stack {
    type V = Seq<u16>;

    closed spec fn view(&self) -> Seq<u16> {
        self.slots@.take(if self.used <= CAPACITY { self.used as int } else { CAPACITY as int })
    }
}

impl Stack {
    #[verifier::type_invariant]
    spec fn bounded(self) -> bool {
        self.used <= CAPACITY
    }

    /// A stack never holds more than `CAPACITY` addresses.
    pub proof fn lemma_bounded(&self)
        ensures
            self@.len() <= CAPACITY,
    {
    }

    /// An empty stack.
    pub fn new() -> (s: Self)
        ensures
            s@ == Seq::<u16>::empty(),
    {
        Self { slots: [0; 16], used: 0 }
    }

    /// The number of addresses on the stack.
    pub fn len(&self) -> (n: usize)
        ensures
            n == self@.len(),
            n <= CAPACITY,
    {
        proof {
            use_type_invariant(self);
        }
        self.used
    }

    /// Puts `value` on top of the stack, unless the stack is full.
    pub fn push(&mut self, value: u16) -> (r: Result<(), Fault>)
        ensures
            r is Ok <==> pushed(old(self)@, value) is Ok,
            r is Ok ==> Ok::<Seq<u16>, Fault>(final(self)@) == pushed(old(self)@, value),
            r is Err ==> r == Err::<(), Fault>(Fault::StackOverflow) && final(self)@ == old(self)@,
    {
        proof {
            use_type_invariant(&*self);
        }
        if self.used >= CAPACITY {
            return Err(Fault::StackOverflow);
        }
        self.slots[self.used] = value;
        self.used = self.used + 1;
        assert(self@ =~= old(self)@.push(value));
        Ok(())
    }

    /// Takes the most recent address off the stack, unless the stack is empty.
    pub fn pop(&mut self) -> (r: Result<u16, Fault>)
        ensures
            r is Ok <==> popped(old(self)@) is Ok,
            r is Ok ==> Ok::<(u16, Seq<u16>), Fault>((r->Ok_0, final(self)@)) == popped(old(self)@),
            r is Err ==> r == Err::<u16, Fault>(Fault::StackUnderflow) && final(self)@ == old(self)@,
    {
        proof {
            use_type_invariant(&*self);
        }
        if self.used == 0 {
            return Err(Fault::StackUnderflow);
        }
        self.used = self.used - 1;
        let value = self.slots[self.used];
        assert(self@ =~= old(self)@.drop_last());
        Ok(value)
    }
}

/// What `push` makes of a stack that holds `stack`: the new contents, or the
/// fault of a stack that is full.
pub open spec fn pushed(stack: Seq<u16>, value: u16) -> Result<Seq<u16>, Fault> {
    if stack.len() < CAPACITY {
        Ok(stack.push(value))
    } else {
        Err(Fault::StackOverflow)
    }
}

/// What `pop` makes of a stack that holds `stack`: the address that it
/// returns and the new contents, or the fault of a stack that is empty.
pub open spec fn popped(stack: Seq<u16>) -> Result<(u16, Seq<u16>), Fault> {
    if stack.len() > 0 {
        Ok((stack.last(), stack.drop_last()))
    } else {
        Err(Fault::StackUnderflow)
    }
}

/// A pop that follows a push returns the address that was pushed and leaves
/// the stack as it was before the push. A push onto a stack that holds
/// `CAPACITY` addresses fails, and so does a pop from an empty stack.
pub proof fn lemma_push_then_pop(stack: Seq<u16>, value: u16)
    requires
        stack.len() <= CAPACITY,
    ensures
        stack.len() < CAPACITY ==> pushed(stack, value) is Ok && popped(pushed(stack, value)->Ok_0)
            == Ok::<(u16, Seq<u16>), Fault>((value, stack)),
        stack.len() == CAPACITY ==> pushed(stack, value) == Err::<Seq<u16>, Fault>(
            Fault::StackOverflow,
        ),
        popped(Seq::<u16>::empty()) == Err::<(u16, Seq<u16>), Fault>(Fault::StackUnderflow),
{
    assert(stack.push(value).drop_last() =~= stack);
}

} // verus!

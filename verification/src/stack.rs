use vstd::prelude::*;

use crate::error::EmulatorError;

verus! {

/// The call stack can hold at most sixteen return addresses.
pub const STACK_SIZE: usize = 0x10;

/// A fixed-capacity LIFO of at most sixteen items.
///
/// The interpreter stores return addresses on it; it is generic so the
/// bounded push/pop behaviour can be exercised on any item type.
#[derive(Clone, Debug)]
pub struct Stack<T> {
    items: Vec<T>,
}

impl<T> Stack<T> {
    /// The stack contents, bottom first, for use in contracts.
    pub closed spec fn view(self) -> Seq<T> {
        self.items@
    }

    /// A fresh, empty stack.
    pub fn new() -> (r: Self)
        ensures
            r@ =~= Seq::<T>::empty(),
    {
        Stack { items: Vec::new() }
    }

    /// Push an item; fails with `StackOverFlow` exactly when the stack
    /// already holds sixteen items.
    pub fn push(&mut self, item: T) -> (r: Result<(), EmulatorError>)
        ensures
            old(self)@.len() < STACK_SIZE <==> r is Ok,
            r is Ok ==> final(self)@ =~= old(self)@.push(item),
            r is Err ==> final(self)@ =~= old(self)@,
            r matches Err(e) ==> e == EmulatorError::StackOverFlow,
    {
        if self.items.len() >= STACK_SIZE {
            Err(EmulatorError::StackOverFlow)
        } else {
            self.items.push(item);
            Ok(())
        }
    }

    /// Pop the most recent item; fails with `StackUnderFlow` exactly when
    /// the stack is empty.
    pub fn pop(&mut self) -> (r: Result<T, EmulatorError>)
        ensures
            old(self)@.len() > 0 <==> r is Ok,
            r matches Ok(item) ==> final(self)@ =~= old(self)@.drop_last() && item
                == old(self)@.last(),
            r is Err ==> final(self)@ =~= old(self)@,
            r matches Err(e) ==> e == EmulatorError::StackUnderFlow,
    {
        match self.items.pop() {
            Some(item) => Ok(item),
            None => Err(EmulatorError::StackUnderFlow),
        }
    }

    /// The number of items currently held.
    pub fn len(&self) -> (r: usize)
        ensures
            r == self@.len(),
    {
        self.items.len()
    }

    /// Drop every item, leaving the stack empty.
    pub fn clear(&mut self)
        ensures
            final(self)@ =~= Seq::<T>::empty(),
    {
        self.items.clear();
    }
}

} // verus!

//! Byte-addressed memory as the 65C816 sees it.

use vstd::prelude::*;

verus! {

/// A 24-bit address space whose reads may have side effects.
///
/// `State` is the mathematical state behind the implementation. `peek` is the
/// byte that a read returns, and `after_read` / `after_write` are the states
/// that an access leaves behind.
pub trait AddressSpace: Sized {
    type State;

    spec fn state(&self) -> Self::State;

    spec fn valid(s: Self::State) -> bool;

    spec fn peek(s: Self::State, addr: u32) -> u8;

    spec fn after_read(s: Self::State, addr: u32) -> Self::State;

    spec fn after_write(s: Self::State, addr: u32, val: u8) -> Self::State;

    /// Read one byte.
    fn read(&mut self, addr: u32) -> (v: u8)
        requires
            Self::valid(old(self).state()),
        ensures
            v == Self::peek(old(self).state(), addr),
            final(self).state() == Self::after_read(old(self).state(), addr),
            Self::valid(final(self).state()),
    ;

    /// Write one byte.
    fn write(&mut self, addr: u32, val: u8)
        requires
            Self::valid(old(self).state()),
        ensures
            final(self).state() == Self::after_write(old(self).state(), addr, val),
            Self::valid(final(self).state()),
    ;
}

} // verus!

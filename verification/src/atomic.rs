//! Stand-ins for the atomic integers of `core`, for single-threaded targets:
//! plain cells whose operations return the old value.
use vstd::prelude::*;
use core::sync::atomic::Ordering;

verus! {

/// A boolean cell with the interface of an atomic boolean.
#[derive(Debug, Clone, Copy)]
pub struct AtomicBool(bool);

impl View for AtomicBool {
    type V = bool;

    closed spec fn view(&self) -> bool {
        self.0
    }
}

impl AtomicBool {
    /// A cell holding `v`.
    pub fn new(v: bool) -> (r: Self)
        ensures
            r@ == v,
    {
        AtomicBool(v)
    }

    /// Stores `new` when the cell holds `current`, returning the old value
    /// as `Ok`; otherwise returns it as `Err` and changes nothing.
    pub fn compare_exchange_weak(
        &mut self,
        current: bool,
        new: bool,
        _success: Ordering,
        _failure: Ordering,
    ) -> (r: Result<bool, bool>)
        ensures
            old(self)@ == current ==> r == Ok::<bool, bool>(old(self)@) && final(self)@ == new,
            old(self)@ != current ==> r == Err::<bool, bool>(old(self)@) && final(self)@ == old(
                self,
            )@,
    {
        if self.0 != current {
            Err(self.0)
        } else {
            let old = self.0;
            self.0 = new;
            Ok(old)
        }
    }

    /// Stores `new` when the cell holds `current`, returning the old value
    /// as `Ok`; otherwise returns it as `Err` and changes nothing.
    pub fn compare_exchange(
        &mut self,
        current: bool,
        new: bool,
        _success: Ordering,
        _failure: Ordering,
    ) -> (r: Result<bool, bool>)
        ensures
            old(self)@ == current ==> r == Ok::<bool, bool>(old(self)@) && final(self)@ == new,
            old(self)@ != current ==> r == Err::<bool, bool>(old(self)@) && final(self)@ == old(
                self,
            )@,
    {
        if self.0 != current {
            Err(self.0)
        } else {
            let old = self.0;
            self.0 = new;
            Ok(old)
        }
    }

    /// The value held.
    pub fn load(&self, _order: Ordering) -> (r: bool)
        ensures
            r == self@,
    {
        self.0
    }

    /// Stores `val`, returning the old value.
    pub fn store(&mut self, val: bool, _order: Ordering) -> (r: bool)
        ensures
            r == old(self)@,
            final(self)@ == val,
    {
        let old = self.0;
        self.0 = val;
        old
    }

    /// Stores `val`, returning the old value.
    pub fn swap(&mut self, val: bool, _order: Ordering) -> (r: bool)
        ensures
            r == old(self)@,
            final(self)@ == val,
    {
        let old = self.0;
        self.0 = val;
        old
    }
}

/// An integer cell with the interface of an atomic integer.
#[derive(Debug, Clone, Copy)]
pub struct AtomicUsize(usize);

impl View for AtomicUsize {
    type V = usize;

    closed spec fn view(&self) -> usize {
        self.0
    }
}

impl AtomicUsize {
    /// A cell holding `v`.
    pub fn new(v: usize) -> (r: Self)
        ensures
            r@ == v,
    {
        AtomicUsize(v)
    }

    /// Stores `new` when the cell holds `current`, returning the old value
    /// as `Ok`; otherwise returns it as `Err` and changes nothing.
    pub fn compare_exchange_weak(
        &mut self,
        current: usize,
        new: usize,
        _success: Ordering,
        _failure: Ordering,
    ) -> (r: Result<usize, usize>)
        ensures
            old(self)@ == current ==> r == Ok::<usize, usize>(old(self)@) && final(self)@ == new,
            old(self)@ != current ==> r == Err::<usize, usize>(old(self)@) && final(self)@ == old(
                self,
            )@,
    {
        if self.0 != current {
            Err(self.0)
        } else {
            let old = self.0;
            self.0 = new;
            Ok(old)
        }
    }

    /// Stores `new` when the cell holds `current`, returning the old value
    /// as `Ok`; otherwise returns it as `Err` and changes nothing.
    pub fn compare_exchange(
        &mut self,
        current: usize,
        new: usize,
        _success: Ordering,
        _failure: Ordering,
    ) -> (r: Result<usize, usize>)
        ensures
            old(self)@ == current ==> r == Ok::<usize, usize>(old(self)@) && final(self)@ == new,
            old(self)@ != current ==> r == Err::<usize, usize>(old(self)@) && final(self)@ == old(
                self,
            )@,
    {
        if self.0 != current {
            Err(self.0)
        } else {
            let old = self.0;
            self.0 = new;
            Ok(old)
        }
    }

    /// Stores the bitwise or with `val`, returning the old value.
    pub fn fetch_or(&mut self, val: usize, _order: Ordering) -> (r: usize)
        ensures
            r == old(self)@,
            final(self)@ == old(self)@ | val,
    {
        let old = self.0;
        self.0 = old | val;
        old
    }

    /// Stores the bitwise and with `val`, returning the old value.
    pub fn fetch_and(&mut self, val: usize, _order: Ordering) -> (r: usize)
        ensures
            r == old(self)@,
            final(self)@ == old(self)@ & val,
    {
        let old = self.0;
        self.0 = old & val;
        old
    }

    /// Adds `val`, returning the old value. The sum must fit: an overflow
    /// panics.
    pub fn fetch_add(&mut self, val: usize, _order: Ordering) -> (r: usize)
        requires
            old(self)@ + val <= usize::MAX,
        ensures
            r == old(self)@,
            final(self)@ == old(self)@ + val,
    {
        let old = self.0;
        self.0 = old + val;
        old
    }

    /// Subtracts `val`, returning the old value. The difference must not go
    /// below zero: that panics.
    pub fn fetch_sub(&mut self, val: usize, _order: Ordering) -> (r: usize)
        requires
            old(self)@ >= val,
        ensures
            r == old(self)@,
            final(self)@ == old(self)@ - val,
    {
        let old = self.0;
        self.0 = old - val;
        old
    }

    /// The value held.
    pub fn load(&self, _order: Ordering) -> (r: usize)
        ensures
            r == self@,
    {
        self.0
    }

    /// Stores `val`, returning the old value.
    pub fn store(&mut self, val: usize, _order: Ordering) -> (r: usize)
        ensures
            r == old(self)@,
            final(self)@ == val,
    {
        let old = self.0;
        self.0 = val;
        old
    }

    /// Stores `val`, returning the old value.
    pub fn swap(&mut self, val: usize, _order: Ordering) -> (r: usize)
        ensures
            r == old(self)@,
            final(self)@ == val,
    {
        let old = self.0;
        self.0 = val;
        old
    }

    /// A mutable reference to the value held.
    pub fn get_mut(&mut self) -> (r: &mut usize)
        ensures
            *r == old(self)@,
            final(self)@ == *final(r),
    {
        &mut self.0
    }
}

} // verus!

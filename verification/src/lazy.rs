//! A value computed on first use, for single-threaded targets.
use vstd::prelude::*;

verus! {

/// A value computed by `init` the first time it is asked for.
pub struct UnsafeLazy<T, F> {
    cell: Option<T>,
    init: Option<F>,
    init_status: bool,
}

impl<T, F> View for UnsafeLazy<T, F> {
    type V = Option<T>;

    /// The value, once computed.
    closed spec fn view(&self) -> Option<T> {
        self.cell
    }
}

impl<T, F> UnsafeLazy<T, F> {
    /// The value is there exactly when the function has run, and the function
    /// is there until then.
    pub closed spec fn wf(self) -> bool {
        &&& self.init_status == self.cell is Some
        &&& !self.init_status ==> self.init is Some
    }

    /// The function that will compute the value, while it has not run.
    pub closed spec fn pending_init(self) -> Option<F> {
        if self.init_status {
            None
        } else {
            self.init
        }
    }

    /// A lazy value that `init` will compute.
    pub fn new(init: F) -> (r: Self)
        ensures
            r.wf(),
            r@ is None,
            r.pending_init() == Some(init),
    {
        Self { cell: None, init: Some(init), init_status: false }
    }
}

impl<T, F: FnOnce() -> T> UnsafeLazy<T, F> {
    /// The value: computed by the pending function the first time, and the
    /// same value every time after, without running anything.
    pub fn force(&mut self) -> (r: &T)
        requires
            old(self).wf(),
            old(self)@ is None ==> old(self).pending_init().unwrap().requires(()),
        ensures
            final(self).wf(),
            old(self)@ matches Some(v) ==> *r == v && *final(self) == *old(self),
            old(self)@ is None ==> old(self).pending_init().unwrap().ensures((), *r)
                && final(self)@ == Some(*r) && final(self).pending_init() is None,
    {
        if !self.init_status {
            let func = match self.init.take() {
                Some(f) => f,
                None => unreached(),
            };
            let res = func();
            self.cell = Some(res);
            self.init_status = true;
        }
        match &self.cell {
            Some(v) => v,
            None => unreached(),
        }
    }
}

} // verus!

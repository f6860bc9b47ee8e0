//! Messages as the bot sees them.
use vstd::prelude::*;
use crate::pb::msg::elem::Elem;

pub mod elem;

verus! {

/// The elements of one message, in order.
#[derive(Debug, Clone)]
pub struct MessageChain(pub Vec<Elem>);

impl MessageChain {
    /// The message made of `elems`.
    pub fn new(elems: Vec<Elem>) -> (r: Self)
        ensures
            r.0@ == elems@,
    {
        MessageChain(elems)
    }
}

} // verus!

//! The element of a message.
use vstd::prelude::*;
use crate::pb::msg::{LightApp, MarketFace, Text};

verus! {

/// One element of a message, by kind.
#[derive(Debug, Clone)]
pub enum Elem {
    Text(Text),
    MarketFace(MarketFace),
    LightApp(LightApp),
}

} // verus!

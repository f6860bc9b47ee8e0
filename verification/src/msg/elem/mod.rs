//! Rich message elements and their travelling form.
pub mod light_app;
pub mod market_face;


pub use light_app::LightApp;
pub use market_face::{Dice, FingerGuessing, MarketFace};


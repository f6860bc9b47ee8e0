//! Message elements as they travel.
use vstd::prelude::*;

pub mod elem;

verus! {

/// A text element.
#[derive(Debug, Clone)]
pub struct Text {
    pub str: Option<String>,
}

impl Default for Text {
    fn default() -> (r: Self)
        ensures
            r.str is None,
    {
        Text { str: None }
    }
}

/// A light-app element: a JSON card, stored or compressed.
#[derive(Debug, Clone)]
pub struct LightApp {
    pub data: Option<Vec<u8>>,
    pub msg_resid: Option<Vec<u8>>,
}

impl Default for LightApp {
    fn default() -> (r: Self)
        ensures
            r.data is None,
            r.msg_resid is None,
    {
        LightApp { data: None, msg_resid: None }
    }
}

/// A market-face element: a sticker from the face store.
#[derive(Debug, Clone)]
pub struct MarketFace {
    pub face_name: Option<Vec<u8>>,
    pub item_type: Option<u32>,
    pub face_info: Option<u32>,
    pub face_id: Option<Vec<u8>>,
    pub tab_id: Option<u32>,
    pub sub_type: Option<u32>,
    pub key: Option<Vec<u8>>,
    pub media_type: Option<u32>,
    pub image_width: Option<u32>,
    pub image_height: Option<u32>,
    pub mobileparam: Option<Vec<u8>>,
}

impl Default for MarketFace {
    fn default() -> (r: Self)
        ensures
            r.face_name is None,
            r.item_type is None,
            r.face_info is None,
            r.face_id is None,
            r.tab_id is None,
            r.sub_type is None,
            r.key is None,
            r.media_type is None,
            r.image_width is None,
            r.image_height is None,
            r.mobileparam is None,
    {
        MarketFace {
            face_name: None,
            item_type: None,
            face_info: None,
            face_id: None,
            tab_id: None,
            sub_type: None,
            key: None,
            media_type: None,
            image_width: None,
            image_height: None,
            mobileparam: None,
        }
    }
}

} // verus!

pub mod atomic;
pub mod buf;
pub mod cache;
pub mod codec;
pub mod config;
pub mod crypto;
pub mod error;
pub mod framed;
pub mod handler;
pub mod hex;
pub mod lazy;
pub mod msg;
pub mod pb;
pub mod processor;
pub mod provider;
pub mod reconnect;
pub mod random;
pub mod task;
pub mod text;
pub mod timestamp;

//! Client-side protocol engine for a live-room event feed: the binary frame
//! codec, the reply classifier and the connection's decision logic.

pub mod buvid;
pub mod cookies;
pub mod error;
pub mod frame;
pub mod frame_laws;
pub mod greeting;
pub mod info;
pub mod json;
pub mod message;
pub mod ntqq;
pub mod outbound;
pub mod reply;
pub mod session;

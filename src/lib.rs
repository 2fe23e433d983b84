//! Feed-to-chat announcement library: renders railway service notices from a
//! syndication feed into chat notifications and decides, entry by entry,
//! whether a notification is created, edited or left alone.
pub mod text;
pub mod clock;
pub mod feed;
pub mod render;
pub mod engine;
pub mod laws;

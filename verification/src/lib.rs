//! Synchronised lyrics for a Discord custom status: the LRC format, the
//! status templates, the emoji syntax and the decisions of the polling loops.

pub mod text;
pub mod models;
pub mod lrc;
pub mod settings;
pub mod status;
pub mod spotify;
pub mod sources;
pub mod lyrics_fetcher;
pub mod translation;

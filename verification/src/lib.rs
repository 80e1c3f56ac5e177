//! A Quran reader: the bundled translation, reference parsing, search,
//! and the state machines behind the terminal browser.

pub mod api;
pub mod app;
pub mod data;
pub mod text;
pub mod ui;

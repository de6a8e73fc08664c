//! Verified core of a terminal dashboard over share-portfolio accounts:
//! the screen's state machine, the text shown for amounts, and the order
//! in which holdings are listed.

pub mod text;
pub mod order;
pub mod account;
pub mod form;
pub mod app;
pub mod display;
pub mod api;
pub mod laws;
pub mod key_laws;

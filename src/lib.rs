//! Daily journal pages, notes and trails kept as plain text, with the codec
//! between those entities and their files and the navigation state machine
//! that drives the terminal front end.

pub mod controller;
pub mod date;
pub mod error;
pub mod journal;
pub mod laws;
pub mod messages;
pub mod model;
pub mod note;
pub mod storage;
pub mod text;
pub mod trail;

//! Core state engine of a terminal emulator: the scrollback ring buffer, the
//! grid built on it, the cell model, and the search, hint, damage and message
//! logic that reads them.

pub mod cell;
pub mod color;
pub mod config;
pub mod content;
pub mod damage;
pub mod event;
pub mod grid;
pub mod hint;
pub mod index;
pub mod ipc;
pub mod message_bar;
pub mod rects;
pub mod row;
pub mod scheduler;
pub mod search;
pub mod search_state;
pub mod storage;
pub mod string;
pub mod term;
pub mod text;
pub mod width;
pub mod writer;

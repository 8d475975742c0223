//! Sets plain-text files on the pages of one document.
//!
//! The [`parser`] turns the lines of a file into a group of typed
//! instructions; the [`compositor`] lays the groups out on pages, with the
//! positions from [`layout`]; [`pipeline`] runs both; [`preview`] renders
//! groups as plain text for the console. [`text`] holds the character
//! primitives below the parser.

pub mod compositor;
pub mod instruction;
pub mod layout;
pub mod parser;
pub mod pipeline;
pub mod preview;
pub mod text;

//! A tally counter that keeps its count in a text file.
//!
//! The library holds the rules: how a count is written and read back, which
//! value a counter starts from, what a key press means, and what has to
//! happen to the file and the terminal after each one. It touches neither
//! the file nor the terminal itself: it hands back what is to be done.

pub mod decimal;
pub mod keys;
pub mod store;
pub mod counter;
pub mod dialogs;
pub mod session;

//! A small verified core for a terminal flashcard authoring tool.
//!
//! The library holds everything that can be stated and proved: inline
//! markup substitution for entered lines, classification of command and
//! confirmation input, the card record and its store, and the staged
//! card-creation workflow as an explicit state machine. A thin unverified
//! shell is expected to do the blocking terminal reads and writes and to
//! drive the state machine with the lines it obtains.

pub mod text;
pub mod markup;
pub mod reader;
pub mod card;
pub mod store;
pub mod menu;
pub mod builder;

//! Text as sequences of characters: the few string operations that the rest
//! of the crate is built on, each with an exact contract.

pub mod bytes;
pub mod chars;
pub mod table;
pub mod trim;
pub mod search;
pub mod split;
pub mod number;
pub mod options;
pub mod order;
pub mod encode;

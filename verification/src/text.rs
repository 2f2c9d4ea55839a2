//! The text form of a container.
//!
//! A container is written as one JSON object with the four members `salt`,
//! `nonce`, `ciphertext` and `tag`, in this order, each a string. It is read
//! back from any JSON object that holds these four members as strings, once
//! each, in any order, with any white space between the tokens; members of
//! other names are checked to be JSON values and passed over.
//!
//! The grammar is given as functions on sequences of characters. The reader
//! and the writer are proved to compute them, and the grammar is proved to
//! read back what it writes.

pub mod grammar;
pub mod laws;
pub mod prefix;
pub mod reader;
pub mod writer;

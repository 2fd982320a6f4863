//! Stateless validation of an Ethereum block against an execution witness.
//!
//! The library decides; the program around it executes. Each outside reply
//! (a consensus rule, a trie root, an executed transaction) is handed to a
//! stage of [`validation`], which answers with the next thing to ask for or
//! with the verdict.

pub mod access_list;
pub mod ancestors;
pub mod block;
pub mod candidate;
pub mod checkpoints;
pub mod error;
pub mod header;
pub mod output;
pub mod primitives;
pub mod receipt;
pub mod replay;
pub mod validation;

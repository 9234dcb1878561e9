//! What the operations of the library are for, said of their inputs and results.
//!
//! Each law speaks of the characters, numbers and fields themselves.
pub mod addresses;
pub mod cache;
pub mod discovery;
pub mod frames;
pub mod keys;
pub mod network;
pub mod node;
pub mod results;
pub mod screen;
pub mod text;

//! A peer-to-peer chat: the rules of its node, of its two front-ends, of peer discovery and of
//! the peer cache.
//!
//! The modules hold no connection and draw nothing. They say what a screen shows after an event,
//! what a node does about a message, which addresses and peers are kept, and what stands in the
//! stored table of peers, and their contracts state it exactly.
//!
//! - [`text`]: the order of identifiers, joining, shortening, decimal numerals.
//! - [`screen`]: the state that both front-ends show, and how node events change it.
//! - [`tui`]: the terminal front-end: channel messages, keys, panels.
//! - [`gui`]: the desktop front-end: one frame's input.
//! - [`iroh_net`]: the chat node as a state machine from events to effects.
//! - [`address`]: multiaddresses, which of them are local or relayed, and whom they name.
//! - [`network`]: direct messages, relayed connections, reachability.
//! - [`peer_table`]: the stored table of peers inside a redb transaction.
//! - [`peer_cache`]: peer records, and how they are saved, found, listed and pruned.
//! - [`discovery`]: discovery strategies and the merging of what they found.
//! - [`laws`]: what the operations of these modules are for, as proved statements.
pub mod address;
pub mod discovery;
pub mod gui;
pub mod iroh_net;
pub mod laws;
pub mod network;
pub mod peer_cache;
pub mod peer_table;
pub mod screen;
pub mod text;
pub mod tui;

//! A metadata engine that gives filesystem semantics to a key-value store.
//!
//! Namespace objects (files, directories, links) are named by inodes whose
//! identifiers never change, while the records they point at are replaced
//! wholesale on every mutation. The engine performs no I/O of its own: an
//! operation is a [`protocol::Task`] that asks for one store round-trip at a
//! time and is resumed with the answer ([`engine::start`],
//! [`engine::advance`]). What the operations mean on a truthful store is
//! said in [`semantics`], and what holds of them on every store in [`laws`].
//! [`store::MemoryStore`] is such a store, kept in memory.
//!
//! Beside the engine stand the in-memory entries of a mounted tree
//! ([`fs_entry`], [`dir_entry`], [`symlink_entry`], [`node`]), a block device
//! ([`block_device`]) and the wire format in which a block device is served
//! ([`nbd`]).

pub mod error;
pub mod inode;
pub mod attributes;
pub mod buffer;
pub mod text;
pub mod checksum;
pub mod utils;
pub mod chunk;
pub mod directory;
pub mod file;
pub mod link;
pub mod manage;
pub mod record;
pub mod keys;
pub mod protocol;
pub mod engine;
pub mod semantics;
pub mod laws;
pub mod store;
pub mod fs_entry;
pub mod dir_entry;
pub mod symlink_entry;
pub mod node;
pub mod block_device;
pub mod nbd;

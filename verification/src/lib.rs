//! Storage of block headers by height: a header codec, the store interface,
//! an in-memory store and the logic of a store kept in a single binary file.

pub mod header;
pub mod io;
pub mod memory;
pub mod store;
pub mod txnmgr;

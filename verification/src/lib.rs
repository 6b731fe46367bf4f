//! Storage core for a resumable, chunked byte-upload service.
//!
//! Clients send a file in arbitrary-sized sequential pieces; the storage
//! layer reconstructs it exactly, enforcing append-only ordering: a chunk is
//! accepted only at the current confirmed offset, and the offset advances
//! only once the chunk's bytes are durable.

pub mod errors;
pub mod file_info;
pub mod ident;
pub mod memory_storage;
pub mod model;
pub mod storages;

pub use memory_storage::MemoryStorage;

pub use storages::AvailableStores;
pub use storages::Storage;

pub use errors::RustusError;
pub use errors::RustusResult;
pub use file_info::FileInfo;

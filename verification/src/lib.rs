//! Encrypted object storage core: streaming validation of uploaded parts,
//! opaque identifier allocation, authenticated encryption at rest, and the
//! transactional upload and retrieval pipelines over an object store.

pub mod crypto;
pub mod errors;
pub mod ident;
pub mod ingest;
pub mod pipeline;
pub mod store;

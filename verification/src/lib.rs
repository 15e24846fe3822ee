//! Verified core of a desktop file search engine: text chunking, file
//! classification, query building, result aggregation and the bookkeeping
//! that sits between the file system, the embedder and the vector store.

pub mod text;
pub mod chunker;
pub mod search;
pub mod query;
pub mod paths;
pub mod classifier;
pub mod estimate;
pub mod watch;
pub mod pipeline;
pub mod extractor;
pub mod preview;
pub mod persist;

//! Hybrid search over candidate records: the rules of ingestion, embedding
//! and query assembly, stated with contracts and machine-checked.

pub mod cli;
pub mod embedding;
pub mod error;
pub mod ingest;
pub mod normalize;
pub mod query;
pub mod search;
pub mod sexo;
pub mod store;
pub mod template;
pub mod text;

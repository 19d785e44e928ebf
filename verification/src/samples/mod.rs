//! Sample categories, drum types, the sample catalog, the sample library
//! and sample-cache statistics.

pub mod catalog;
pub mod library;
pub mod manager;

pub use catalog::{DrumType, SampleCatalog, SampleCategory, SampleInfo};
pub use library::{CachedSample, MemoryStats, SampleError, SampleLibrary};
pub use manager::CacheStats;

//! Core of a tile-serving engine for whole-slide-image viewers: the packed
//! tile container, slide metadata, the two-level tile cache, the viewport
//! prefetch planner and the scheduler that ties them together.
//!
//! Everything here is sequential and free of file access. A host performs
//! the reads and runs the worker threads; it hands this crate plain values
//! and carries out the actions it is told to perform.

pub mod buffer;
pub mod bulk_preload;
pub mod cache;
pub mod codec;
pub mod coherence;
pub mod decoder;
pub mod error;
pub mod format;
pub mod order;
pub mod pack;
pub mod packer;
pub mod prefetch;
pub mod scheduler;
pub mod slide_pool;
pub mod store;
pub mod text;
pub mod tile_reader;

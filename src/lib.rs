//! Streaming decoder for ZIP archives, including split and multi-volume ones.

/// Provides utilities for decompressing data
pub mod decompress;

/// Provides utilities for unpacking ZIP archives
pub mod zip;

//! Decoder and vector projection for version 5 of the reMarkable tablet
//! "lines" stroke-capture format.
//!
//! The library has two halves. `decode` turns a byte stream into a
//! `Document`: an ordered tree of layers, lines (strokes) and sampled
//! points, validated against the format's fixed grammar. `project` turns a
//! `Document` into a `VectorDocument`: one drawable group per layer, one
//! path per line, with the points of each line rendered as a move-then-line
//! command sequence. `encode` writes a `Document` back to bytes, and the
//! decoded bytes round-trip through it exactly.
//!
//! Every 32-bit floating-point field of the format (coordinates, stroke
//! dynamics, brush size) is carried as its raw little-endian bit pattern in
//! a `u32`; the renderer that consumes a `VectorDocument` reinterprets the
//! bits. The library never computes with these values, so nothing is lost.

pub mod doc;
pub mod decode;
pub mod encode;
pub mod project;
pub mod roundtrip;

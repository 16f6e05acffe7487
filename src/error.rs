//! What can go wrong while decoding.
use vstd::prelude::*;

verus! {

/// The part of a terrain tile that a failure concerns.
#[derive(Clone, Copy, Debug, PartialEq, Eq, Structural)]
pub enum Subchunk {
    Header,
    Height,
    Normal,
    Layer,
    Refs,
    Alpha,
    Liquid,
}

/// Errors that decoding a chunk or a part of one can give.
#[derive(Clone, Copy, Debug, PartialEq, Eq, Structural)]
pub enum DecodeError {
    /// Fewer bytes remain than a header or a length field promises.
    TruncatedInput,
    /// A tile's internal offset (or the range it starts) lies outside the
    /// tile's payload; `offset` is the stored offset. A payload too short
    /// for the tile header gives `Header` at offset 0.
    MalformedTile { subchunk: Subchunk, offset: u32 },
    /// A blend mask ran out of input; `layer` is its index in the layer list.
    MalformedAlphaLayer { layer: u32 },
    /// The liquid block ran out of input.
    MalformedLiquid,
    /// A chunk whose tag the file's dispatch does not know; `tag` holds its
    /// four on-disk bytes read as a little-endian number.
    UnrecognizedTag { tag: u32 },
    /// A flat record chunk holds a value outside its enumeration.
    MalformedRecord { tag: u32 },
}

} // verus!

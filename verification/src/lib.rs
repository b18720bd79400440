//! Codec for the binary asset container of an N64-era platform game:
//! a model file bundles a fixed header, optional sections addressed by
//! header offsets, and a trailing blob, all of which decode and re-encode
//! byte for byte.

use vstd::prelude::*;

pub mod bebytes;
pub mod pixels;
pub mod error;
pub mod bktexture;
pub mod bkmodel;

verus! {

/// Image format tag of a sprite asset.
#[derive(PartialEq, Eq, Structural, Debug, Copy, Clone)]
pub enum ImgFmt {
    CI4,
    CI8,
    I4,
    I8,
    RGBA16,
    RGBA32,
    IA4,
    IA8,
    Unknown(u16),
}

/// Kind of an asset file within an asset folder.
pub enum AssetType {
    Animation,
    Binary,
    DemoInput,
    Dialog,
    GruntyQuestion,
    LevelSetup,
    Midi,
    Model,
    QuizQuestion,
    Sprite(ImgFmt),
}

/// Placeholder for a directory of extracted assets.
pub struct AssetFolder {}

} // verus!

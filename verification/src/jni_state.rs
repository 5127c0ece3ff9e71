//! Data handed over from the Java side.
use vstd::prelude::*;

verus! {

/// A player skin image received from the launcher, waiting to be uploaded.
pub struct SkinData {
    /// The PNG-encoded skin image.
    pub png_bytes: Vec<u8>,
    /// Whether the skin uses slim arms.
    pub slim: bool,
}

} // verus!

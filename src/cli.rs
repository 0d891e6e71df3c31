use vstd::prelude::*;
use crate::hash::HashAlgorithm;
use crate::picture::{ImageFormat, ImageSize};
use crate::serve::ServeMode;

verus! {

/// The commands of the toolbox, with their arguments as plain values.
pub enum BadLopoCommands {
    /// Show information about the project.
    About,
    /// Report the digest of `source`: the text itself when `raw`, else the
    /// contents of the file it names.
    Hash { source: String, algorithm: HashAlgorithm, raw: bool },
    /// Show an image's metadata and, when asked, write it resized or in
    /// another format.
    Image { source: String, format: Option<ImageFormat>, size: Option<ImageSize> },
    /// Serve the files under `root` on `port`.
    Serve { root: String, entry: String, port: u16, mode: ServeMode },
}

} // verus!

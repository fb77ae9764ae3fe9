//! Reverse-image-search abstraction. Concrete backends are supplied by
//! embedders; a backend takes the raw bytes of an image and produces its
//! own output or error.

use vstd::prelude::*;

verus! {

/// A reverse-image-search backend.
pub trait ImageSearcher {
    type SeacheError;

    type SearchOutput;

    fn search(&self, data: Vec<u8>) -> Result<Self::SearchOutput, Self::SeacheError>;
}

} // verus!

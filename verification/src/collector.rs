//! Collector abstraction: a source-specific component that turns a page
//! reference into album metadata plus a lazy, finite, single-pass stream
//! of per-item fetch operations.

use vstd::prelude::*;

pub mod nhentai;

verus! {

/// Album metadata, produced once per successful fetch and immutable
/// thereafter.
pub struct AlbumMeta {
    pub link: String,
    pub name: String,
    pub class: Option<String>,
    pub description: Option<String>,
    pub authors: Option<Vec<String>>,
    pub tags: Option<Vec<String>>,
}

/// Per-item metadata: identifier and URL are derived from the item's
/// resolved download link, not the listing page.
pub struct ImageMeta {
    pub id: String,
    pub url: String,
    pub description: Option<String>,
}

/// Raw downloaded bytes of one item.
pub struct ImageData {
    pub bytes: Vec<u8>,
}

/// Why a fetch failed. A missing title never appears here — it degrades
/// to a placeholder — and zero extractable items is an empty stream, not
/// an error.
#[derive(Clone, Copy, PartialEq, Eq, Structural, Debug)]
pub enum FetchError {
    /// The page reference does not match the source's expected shape;
    /// surfaced immediately, never retried.
    InvalidReference,
    /// Non-success HTTP status on the page or item fetch.
    UpstreamError(u16),
    /// Expected markup absent where that is not tolerated.
    ParseError,
    /// The underlying transport could not be built.
    Configuration,
}

/// Success of an HTTP status: the 2xx range.
pub open spec fn spec_status_success(status: u16) -> bool {
    200 <= status < 300
}

/// The decision on a response status: success passes, anything else is an
/// upstream failure carrying the status.
pub fn check_status(status: u16) -> (r: Result<(), FetchError>)
    ensures
        spec_status_success(status) ==> r == Ok::<(), FetchError>(()),
        !spec_status_success(status) ==> r == Err::<(), FetchError>(
            FetchError::UpstreamError(status),
        ),
{
    if 200 <= status && status < 300 {
        Ok(())
    } else {
        Err(FetchError::UpstreamError(status))
    }
}

/// The meta/data pair for a drained item, from its resolved link and
/// downloaded bytes: identifier and URL are both the link, the bytes pass
/// through unchanged.
pub fn image_pair(link: String, data: Vec<u8>) -> (r: (ImageMeta, ImageData))
    ensures
        r.0.id@ == link@,
        r.0.url@ == link@,
        r.0.description is None,
        r.1.bytes@ == data@,
{
    let id = link.clone();
    (ImageMeta { id, url: link, description: None }, ImageData { bytes: data })
}

} // verus!

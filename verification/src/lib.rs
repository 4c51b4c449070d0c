//! A language-server core for markdown documents.
//!
//! The library tracks the text of documents an editor has open, extracts the
//! word under a cursor, derives wiki-link (`[[...]]`) completion candidates
//! from a directory listing, and mirrors document text to a live preview
//! transport. All state transitions are specified and verified; the
//! surrounding process (JSON-RPC framing, filesystem walks, the preview
//! process itself) supplies plain values and performs the I/O.

use vstd::prelude::*;

pub mod completion;
pub mod document;
pub mod order;
pub mod paths;
pub mod preview;
pub mod server;
pub mod words;

verus! {

/// The views of a vector of strings: each element's characters, in order.
pub open spec fn views_of(v: Seq<String>) -> Seq<Seq<char>> {
    v.map_values(|s: String| s@)
}

/// Errors a server operation can report.
#[derive(Clone, Copy, PartialEq, Eq, Structural, Debug)]
pub enum ServerError {
    /// The operation referenced a document that is not open.
    NotFound,
    /// The cursor position lies outside the document.
    InvalidPosition,
    /// Missing active-document context or a path without a parent.
    InternalError,
    /// The capability is not implemented.
    Unimplemented,
}

} // verus!

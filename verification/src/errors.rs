//! Error taxonomy of the upload pipeline.
//!
//! Configuration and prepare errors are fatal to a whole batch and surface
//! directly to the caller; transfer and path-encoding errors are terminal for
//! a single asset only and end up in the batch's failure list.

use vstd::prelude::*;

verus! {

/// A terminal error of the upload pipeline.
///
/// `Config` and `Prepare` abort a batch before any asset outcome exists;
/// `Transfer` and `PathEncoding` are recorded per asset while the rest of the
/// batch continues.
#[derive(Debug)]
pub enum UploadError {
    /// Invalid or missing backend parameters; the batch never starts.
    Config(String),
    /// Backend-specific one-time setup failed; fatal for the whole batch.
    Prepare(String),
    /// Content read/write or network failure of a single asset's upload.
    Transfer(String),
    /// An asset or storage path cannot be used as a URL path segment.
    PathEncoding(String),
}

/// Mathematical image of an `UploadError`: the variant with its message as a
/// sequence of characters.
pub enum ErrorView {
    Config(Seq<char>),
    Prepare(Seq<char>),
    Transfer(Seq<char>),
    PathEncoding(Seq<char>),
}

impl View for UploadError {
    type V = ErrorView;

    open spec fn view(&self) -> ErrorView {
        match self {
            UploadError::Config(m) => ErrorView::Config(m@),
            UploadError::Prepare(m) => ErrorView::Prepare(m@),
            UploadError::Transfer(m) => ErrorView::Transfer(m@),
            UploadError::PathEncoding(m) => ErrorView::PathEncoding(m@),
        }
    }
}

impl UploadError {
    /// The human-readable message carried by the error.
    pub fn message(&self) -> (m: &String)
        ensures
            m@ == self.spec_message(),
    {
        match self {
            UploadError::Config(m) => m,
            UploadError::Prepare(m) => m,
            UploadError::Transfer(m) => m,
            UploadError::PathEncoding(m) => m,
        }
    }

    /// A copy of the error with the same variant and message.
    pub fn duplicate(&self) -> (r: UploadError)
        ensures
            r@ == self@,
    {
        match self {
            UploadError::Config(m) => UploadError::Config(m.clone()),
            UploadError::Prepare(m) => UploadError::Prepare(m.clone()),
            UploadError::Transfer(m) => UploadError::Transfer(m.clone()),
            UploadError::PathEncoding(m) => UploadError::PathEncoding(m.clone()),
        }
    }

    /// The message of the error, at the specification level.
    pub open spec fn spec_message(&self) -> Seq<char> {
        match self {
            UploadError::Config(m) => m@,
            UploadError::Prepare(m) => m@,
            UploadError::Transfer(m) => m@,
            UploadError::PathEncoding(m) => m@,
        }
    }
}

} // verus!

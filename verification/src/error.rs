use vstd::prelude::*;

verus! {

/// Classifies a reply that arrived but offered nothing usable.
#[derive(Debug, Clone, Copy, PartialEq, Eq, Hash, Structural)]
pub enum InvalidResponseError {
    /// The reply text holds no fenced JSON section.
    NoJsonSection,
    /// The reply holds no message choices at all.
    NoMessages,
}

/// The failure taxonomy of the extraction pipeline. Every stage failure
/// aborts the run and is surfaced under exactly one of these kinds.
#[derive(Debug)]
pub enum Error {
    /// The document could not be opened or a page could not be rendered.
    PdfError(String),
    /// A rendered page could not be serialized to the raster format.
    ImageError(String),
    /// The outbound call failed before a reply body was produced.
    WebRequestError(String),
    /// The endpoint answered with a non-success status; the body is kept verbatim.
    OpenAIError(String),
    /// The extracted text failed structural or type validation against the schema.
    JsonError(String),
    /// The reply arrived but could not be used.
    InvalidResponse(InvalidResponseError),
}

} // verus!

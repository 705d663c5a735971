//! Error values returned by the content model and the invocation extractor.
//!
//! Every failure is an explicit, inspectable result value; no layer retries
//! or substitutes defaults.

use vstd::prelude::*;

verus! {

/// Failure of flattening content into a single modality.
#[derive(Debug, Clone, Copy, PartialEq, Eq, Hash, Structural)]
pub enum ContentFlatteningError {
    /// The block sequence is empty.
    Empty,
    /// The first block does not have the requested modality.
    NotFoundTargetBlock,
}

/// Structural failure of decoding an extracted invocation span.
#[derive(Debug, Clone, Copy, PartialEq, Eq, Hash, Structural)]
pub enum FunctionCallsDecodingError {
    /// The span holds no `<invoke>` element.
    InvokeNotFound,
    /// The invoke element holds no well-formed `<tool_name>` element.
    ToolNameNotFound,
    /// The invoke element holds no well-formed `<parameters>` element.
    ParametersNotFound,
    /// A child of `<parameters>` is not a well-formed leaf element.
    MalformedParameter,
}

/// Failure of the composed extraction `Content::exclude_function_calls`.
#[derive(Debug, Clone, Copy, PartialEq, Eq, Hash, Structural)]
pub enum FunctionCallsExcludingError {
    /// The content could not be flattened into text.
    ContentFlattening(ContentFlatteningError),
    /// The text holds no delimited invocation span.
    XmlNotFound,
    /// The delimited span does not match the expected invocation shape.
    FunctionCallsDecoding(FunctionCallsDecodingError),
}

/// Failure of mapping a file path to an image media type.
#[derive(Debug, Clone)]
pub enum ImageMediaTypeParseError {
    /// The path carries an extension outside the supported set.
    NotSupported(String),
    /// The path carries no extension.
    NotFound,
}

/// The view of an `ImageMediaTypeParseError`: the same shape over
/// mathematical sequences.
pub enum ImageMediaTypeParseErrorView {
    NotSupported(Seq<char>),
    NotFound,
}

impl View for ImageMediaTypeParseError {
    type V = ImageMediaTypeParseErrorView;

    open spec fn view(&self) -> ImageMediaTypeParseErrorView {
        match self {
            ImageMediaTypeParseError::NotSupported(ext) => ImageMediaTypeParseErrorView::NotSupported(ext@),
            ImageMediaTypeParseError::NotFound => ImageMediaTypeParseErrorView::NotFound,
        }
    }
}

impl PartialEq for ImageMediaTypeParseError {
    fn eq(&self, other: &Self) -> (r: bool) {
        match (self, other) {
            (
                ImageMediaTypeParseError::NotSupported(a),
                ImageMediaTypeParseError::NotSupported(b),
            ) => *a == *b,
            (ImageMediaTypeParseError::NotFound, ImageMediaTypeParseError::NotFound) => true,
            _ => false,
        }
    }
}

impl vstd::std_specs::cmp::PartialEqSpecImpl for ImageMediaTypeParseError {
    open spec fn obeys_eq_spec() -> bool {
        true
    }

    open spec fn eq_spec(&self, other: &Self) -> bool {
        self@ == other@
    }
}

} // verus!

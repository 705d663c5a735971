//! The Messages API data model: content, invocation extraction, and the
//! errors either can return.

pub mod content;
pub mod error;
pub mod function_calls;
pub mod json;

pub use content::Content;
pub use content::ContentBlock;
pub use content::ContentType;
pub use content::ImageContentBlock;
pub use content::ImageContentSource;
pub use content::ImageMediaType;
pub use content::ImageSourceType;
pub use content::TextContentBlock;
pub use function_calls::FunctionCalls;
pub use function_calls::Invoke;
pub use error::ContentFlatteningError;
pub use error::FunctionCallsDecodingError;
pub use error::FunctionCallsExcludingError;
pub use error::ImageMediaTypeParseError;

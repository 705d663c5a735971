//! A typed client library for a remote large-language-model "Messages" API.
//!
//! The verified core models message content as a tagged union over a single
//! text or an ordered sequence of typed blocks, provides projections back to a
//! single modality, encodes and decodes the JSON wire shapes of those values,
//! and extracts tag-delimited tool invocations from model-generated text.
//! The HTTP transport around this core lives outside the library.

pub mod messages;
pub mod text;

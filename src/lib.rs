//! A small HTTP/1.1 client core: request building and serialisation, and
//! response framing, with a toy JSON tokenizer beside it.
pub mod address;
pub mod error;
pub mod headers;
pub mod json;
pub mod method;
pub mod request;
pub mod response;
pub mod text;

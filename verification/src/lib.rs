//! A collector that decodes copybook-driven EBCDIC records and hands out one
//! typed row per record as the byte walk progresses.
//!
//! Design rules, in the order they constrain the code:
//!
//! - **The live stream is the product.** [`LayoutInfo`](proto::v1::LayoutInfo)
//!   goes out before a single input byte is read, each
//!   [`RecordRow`](proto::v1::RecordRow) the moment that record's last byte
//!   arrives, and [`ParseStatus`](proto::v1::ParseStatus) is a trailer of
//!   counts. Nothing is batched and nothing is held back.
//! - **Diskless.** The only bytes that persist across a chunk are the partial
//!   record at its tail and the declared footer, so memory is bounded by the
//!   record size and not by the file size.
//! - **Types survive the wire.** COMP-3 and zoned decimals become an exact
//!   base-10 [`Decimal`](proto::v1::Decimal), binary COMP fields become
//!   integers, and character fields are decoded with the requested EBCDIC code
//!   page. There is no float anywhere on the value path.
//! - **The document plane is opt-in and bounded.** [`document_fold`] projects
//!   the parse into one document when the request asks for it, immediately
//!   before the trailer. It is a fold over the events of the parse rather than
//!   a second parser, and it caps its rows per schema and reports what it
//!   dropped instead of quietly shortening a table.
//!
//! A function's contract speaks of models: what a value is, in sequences of
//! characters and mathematical numbers. The `laws`, `meaning`, `runs`, `links`,
//! `cards` and `entries` modules state what holds of several functions together.

pub mod codec;
pub mod codepages;
pub mod copybook;
pub mod decode;
pub mod document_fold;
pub mod error;
pub mod layout;
pub mod metrics;
pub mod proto;
pub mod service;
pub mod stream;
pub mod text;

pub use document_fold::DocumentFold;
pub use error::ParseError;
pub use metrics::Metrics;
pub use service::EbcdicGrpc;
pub use stream::RecordStream;

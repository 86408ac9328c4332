//! Time-synced song lyrics, fetched as JSON and rendered as LRC text.
//!
//! The library holds everything between the wire and the output: the
//! request shape (`request`), the JSON model and parser (`json`), the
//! decoding of the lyrics payload (`decode`, `lyrics`, `numbers`,
//! `timefmt`), the LRC renderer (`render`), and the judgement of a whole
//! response (`pipeline`). Network and command-line handling stay outside.

pub mod decode;
pub mod json;
pub mod lyrics;
pub mod numbers;
pub mod pipeline;
pub mod render;
pub mod request;
pub mod timefmt;

//! Inference providers: wire formats, streaming and retry.
pub mod backend;
pub mod convert;
pub mod convert_laws;
pub mod request_laws;
pub mod retry;
pub mod rounding;
pub mod stream;
pub mod stream_laws;

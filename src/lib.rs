//! Incremental decoder for the chunked response stream of a conversational
//! agent server.
//!
//! Bytes arrive in arbitrary fragments; they are cut into lines, each line is
//! classified as a frame of the multiplexed `<selector>:<payload>` grammar or of
//! the server-sent-events `data: <payload>` grammar, payloads are resolved to
//! text, and text is coalesced into fewer, larger chunks before it is handed to
//! the consumer as events.
//!
//! Beside the decoder stand the rules of the requests around it: which parts
//! a user's message has, how a stored image is named and typed, and which
//! on-screen window a capture is for.
pub mod capture;
pub mod chars;
pub mod decoder;
pub mod emitter;
pub mod frame;
pub mod laws;
pub mod line_buffer;
pub mod request;
pub mod resolve;
pub mod textops;
pub mod upload;

//! Resumable download of one remote file over HTTP byte ranges.
//!
//! The library holds the decisions of the transfer: the numbers sent in the
//! `Range` request header, the checks on the `Content-Range` header that the
//! server answers with, and the retry state machine that drives probing,
//! requesting, appending and recovering. The caller performs the I/O that each
//! action names and reports back what happened as an event.
pub mod decimal;
pub mod content_range;
pub mod request;
pub mod transfer;
pub mod laws;

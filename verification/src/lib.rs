//! Frame analysis for live video streams.
//!
//! The crate holds the pure core of a streaming service: transforms over
//! RGBA pixel buffers, the decisions of the analysis dispatcher, and the
//! per-connection session state machine. Every function carries a contract
//! that is proved against a mathematical model of its data.

pub mod dispatch;
pub mod numeric;
pub mod pixel;
pub mod session;
pub mod trace;

pub use dispatch::{conclude, prepare_request, resolve_endpoint};
pub use numeric::{fibonacci, is_prime, process_array};
pub use pixel::{detect_edges, detect_motion, invert};
pub use session::Session;

//! Capability-based request routing, and a vision agent.
//!
//! The router scores the shape of a request against what its specialists do, and sends
//! the request on, byte for byte, to the one that fits best, or to nobody. `routing` holds
//! the decision, `probes` the scores, `forward` what is sent and what comes back, and
//! `laws` what holds of all of them together.
//!
//! The agent under `agent` is one of the specialists: it answers questions about images
//! and documents by asking vision-language models.

pub mod agent;
pub mod card;
pub mod envelope;
pub mod forward;
pub mod http;
pub mod json;
pub mod laws;
pub mod probe;
pub mod probes;
pub mod registry;
pub mod routing;
pub mod skeleton;
pub mod sse;
pub mod text;
pub mod wire;

pub use crate::json::{Json, JsonView, NumberView};

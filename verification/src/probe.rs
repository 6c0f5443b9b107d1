//! Capability probes: how well a request fits the work that a specialist does.
//!
//! A probe scores the shape of a request, never a benchmark's name, a task
//! identifier or the words of a text. Scores are counted in hundredths: `100`
//! stands for certainty.

use vstd::prelude::*;

use crate::json::{Json, JsonView};

verus! {

/// How a specialist answers.
#[derive(Debug, Clone, Copy, PartialEq, Eq, Structural)]
pub enum ResponseShape {
    /// With a stream of server-sent events.
    Sse,
    /// With a single JSON body.
    Json,
    /// With a single JSON body that is passed on as one server-sent event.
    JsonAsSse,
}

/// A specialist's endpoint.
#[derive(Debug, Clone)]
pub struct Upstream {
    pub url: String,
    pub response_shape: ResponseShape,
}

/// A capability: what it is called, how well a request fits it, and who does the
/// work.
pub trait CapabilityProbe: Send + Sync {
    /// The name of the capability.
    spec fn capability(&self) -> Seq<char>;

    /// How well a request fits, in hundredths.
    spec fn fit(&self, req: JsonView) -> nat;

    /// Who does the work.
    spec fn specialist(&self) -> Upstream;

    /// No request fits better than with certainty.
    proof fn fit_is_bounded(&self, req: JsonView)
        ensures
            self.fit(req) <= 100,
    ;

    /// The identifier of the capability. It is told to people; nothing is matched
    /// against it.
    fn name(&self) -> (r: &'static str)
        ensures
            r@ == self.capability(),
    ;

    /// How well `req` fits, in hundredths from 0 to 100.
    fn score(&self, req: &Json) -> (r: u32)
        ensures
            r == self.fit(req@),
            r <= 100,
    ;

    /// The endpoint of the specialist and the shape of its answers.
    fn upstream(&self) -> (r: &Upstream)
        ensures
            *r == self.specialist(),
    ;
}

/// The least score, in hundredths, with which a request is routed. Below it the
/// router refuses: a request sent to the wrong specialist is worse than one sent
/// to none.
pub const ROUTE_CONFIDENCE_THRESHOLD: u32 = 35;

} // verus!

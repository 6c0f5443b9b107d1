//! Code generation against a textual task.
//!
//! This is the weak default: it takes a message that holds a prompt and nothing
//! that any other capability would claim.

use vstd::prelude::*;

use crate::envelope::{any_part, message_parts, parts_of, some_part, Feature};
use crate::json::{Json, JsonView};
use crate::probe::{CapabilityProbe, Upstream};

verus! {

/// Recognises text-only requests.
pub struct NetArenaProbe {
    upstream: Upstream,
}

impl NetArenaProbe {
    /// The endpoint that this probe was made with.
    pub closed spec fn endpoint(&self) -> Upstream {
        self.upstream
    }

    /// The probe for the specialist at `upstream`.
    pub fn new(upstream: Upstream) -> (r: NetArenaProbe)
        ensures
            r.endpoint() == upstream,
    {
        NetArenaProbe { upstream }
    }
}

/// How well a message with these parts fits.
pub open spec fn text_codegen_fit(parts: Seq<JsonView>) -> nat {
    if some_part(parts, Feature::Claimed) {
        0
    } else if some_part(parts, Feature::Prompt) {
        45
    } else {
        0
    }
}

impl CapabilityProbe for NetArenaProbe {
    open spec fn capability(&self) -> Seq<char> {
        "text-codegen"@
    }

    open spec fn fit(&self, req: JsonView) -> nat {
        match message_parts(req) {
            Some(parts) => text_codegen_fit(parts),
            None => 0,
        }
    }

    open spec fn specialist(&self) -> Upstream {
        self.endpoint()
    }

    proof fn fit_is_bounded(&self, req: JsonView) {
    }

    fn name(&self) -> (r: &'static str) {
        "text-codegen"
    }

    fn score(&self, req: &Json) -> (r: u32) {
        let parts: &Vec<Json> = match parts_of(req) {
            Some(parts) => parts,
            None => return 0,
        };
        if any_part(parts, Feature::Claimed) {
            0
        } else if any_part(parts, Feature::Prompt) {
            45
        } else {
            0
        }
    }

    fn upstream(&self) -> (r: &Upstream) {
        &self.upstream
    }
}

} // verus!

//! Vulnerability reproduction.
//!
//! Such a request ships a source archive or a patch, or it carries the exit code
//! of the last attempt.

use vstd::prelude::*;

use crate::envelope::{any_part, message_parts, parts_of, some_part, Feature};
use crate::json::{Json, JsonView};
use crate::probe::{CapabilityProbe, Upstream};

verus! {

/// Recognises work on reproducing a vulnerability.
pub struct CyberGymProbe {
    upstream: Upstream,
}

impl CyberGymProbe {
    /// The endpoint that this probe was made with.
    pub closed spec fn endpoint(&self) -> Upstream {
        self.upstream
    }

    /// The probe for the specialist at `upstream`.
    pub fn new(upstream: Upstream) -> (r: CyberGymProbe)
        ensures
            r.endpoint() == upstream,
    {
        CyberGymProbe { upstream }
    }
}

/// How well a message with these parts fits: feedback on a run says most, then a
/// source archive, then a patch.
pub open spec fn vuln_repro_fit(parts: Seq<JsonView>) -> nat {
    if some_part(parts, Feature::ExitCode) {
        95
    } else if some_part(parts, Feature::Archive) {
        85
    } else if some_part(parts, Feature::Patch) {
        75
    } else {
        0
    }
}

impl CapabilityProbe for CyberGymProbe {
    open spec fn capability(&self) -> Seq<char> {
        "vuln-repro"@
    }

    open spec fn fit(&self, req: JsonView) -> nat {
        match message_parts(req) {
            Some(parts) => vuln_repro_fit(parts),
            None => 0,
        }
    }

    open spec fn specialist(&self) -> Upstream {
        self.endpoint()
    }

    proof fn fit_is_bounded(&self, req: JsonView) {
    }

    fn name(&self) -> (r: &'static str) {
        "vuln-repro"
    }

    fn score(&self, req: &Json) -> (r: u32) {
        let parts: &Vec<Json> = match parts_of(req) {
            Some(parts) => parts,
            None => return 0,
        };
        if any_part(parts, Feature::ExitCode) {
            95
        } else if any_part(parts, Feature::Archive) {
            85
        } else if any_part(parts, Feature::Patch) {
            75
        } else {
            0
        }
    }

    fn upstream(&self) -> (r: &Upstream) {
        &self.upstream
    }
}

} // verus!

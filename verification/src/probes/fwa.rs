//! Question answering grounded in a supplied document.
//!
//! Such a request pairs an image or a document with a question. Archives and
//! patches are left to vulnerability reproduction, and anything that belongs to
//! desktop control is left to the GUI agent.

use vstd::prelude::*;

use crate::envelope::{any_part, message_parts, parts_of, some_part, Feature};
use crate::json::{Json, JsonView};
use crate::probe::{CapabilityProbe, Upstream};

verus! {

/// Recognises questions about an image or a document.
pub struct FwaProbe {
    upstream: Upstream,
}

impl FwaProbe {
    /// The endpoint that this probe was made with.
    pub closed spec fn endpoint(&self) -> Upstream {
        self.upstream
    }

    /// The probe for the specialist at `upstream`.
    pub fn new(upstream: Upstream) -> (r: FwaProbe)
        ensures
            r.endpoint() == upstream,
    {
        FwaProbe { upstream }
    }
}

/// How well a message with these parts fits. An image counts for more than a
/// document, and either for more with a question.
pub open spec fn vision_qa_fit(parts: Seq<JsonView>) -> nat {
    if some_part(parts, Feature::Archive) || some_part(parts, Feature::Patch) {
        0
    } else if some_part(parts, Feature::GuiFingerprint) {
        0
    } else if some_part(parts, Feature::Image) {
        if some_part(parts, Feature::Question) {
            90
        } else {
            60
        }
    } else if some_part(parts, Feature::Document) {
        if some_part(parts, Feature::Question) {
            75
        } else {
            40
        }
    } else {
        0
    }
}

impl CapabilityProbe for FwaProbe {
    open spec fn capability(&self) -> Seq<char> {
        "vision-qa"@
    }

    open spec fn fit(&self, req: JsonView) -> nat {
        match message_parts(req) {
            Some(parts) => vision_qa_fit(parts),
            None => 0,
        }
    }

    open spec fn specialist(&self) -> Upstream {
        self.endpoint()
    }

    proof fn fit_is_bounded(&self, req: JsonView) {
    }

    fn name(&self) -> (r: &'static str) {
        "vision-qa"
    }

    fn score(&self, req: &Json) -> (r: u32) {
        let parts: &Vec<Json> = match parts_of(req) {
            Some(parts) => parts,
            None => return 0,
        };
        if any_part(parts, Feature::Archive) || any_part(parts, Feature::Patch) {
            return 0;
        }
        if any_part(parts, Feature::GuiFingerprint) {
            return 0;
        }
        let has_text: bool = any_part(parts, Feature::Question);
        match (any_part(parts, Feature::Image), any_part(parts, Feature::Document), has_text) {
            (true, _, true) => 90,
            (true, _, false) => 60,
            (false, true, true) => 75,
            (false, true, false) => 40,
            (false, false, _) => 0,
        }
    }

    fn upstream(&self) -> (r: &Upstream) {
        &self.upstream
    }
}

} // verus!

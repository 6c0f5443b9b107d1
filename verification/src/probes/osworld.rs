//! GUI agent: a screenshot in, a coordinate action out.
//!
//! Such a request declares how the agent acts on a machine. A desktop-observation
//! channel beside a screenshot is taken for one too.

use vstd::prelude::*;

use crate::envelope::{any_part, message_parts, parts_of, some_part, Feature};
use crate::json::{Json, JsonView};
use crate::probe::{CapabilityProbe, Upstream};

verus! {

/// Recognises desktop control.
pub struct OsworldProbe {
    upstream: Upstream,
}

impl OsworldProbe {
    /// The endpoint that this probe was made with.
    pub closed spec fn endpoint(&self) -> Upstream {
        self.upstream
    }

    /// The probe for the specialist at `upstream`.
    pub fn new(upstream: Upstream) -> (r: OsworldProbe)
        ensures
            r.endpoint() == upstream,
    {
        OsworldProbe { upstream }
    }
}

/// How well a message with these parts fits. The environment contract decides;
/// everything else reinforces it.
pub open spec fn gui_agent_fit(parts: Seq<JsonView>) -> nat {
    let image = some_part(parts, Feature::Screenshot);
    let observation = some_part(parts, Feature::DesktopObservation);
    if some_part(parts, Feature::GuiEnvConfig) {
        if image || observation {
            97
        } else {
            90
        }
    } else if image && observation {
        75
    } else {
        0
    }
}

impl CapabilityProbe for OsworldProbe {
    open spec fn capability(&self) -> Seq<char> {
        "gui-agent"@
    }

    open spec fn fit(&self, req: JsonView) -> nat {
        match message_parts(req) {
            Some(parts) => gui_agent_fit(parts),
            None => 0,
        }
    }

    open spec fn specialist(&self) -> Upstream {
        self.endpoint()
    }

    proof fn fit_is_bounded(&self, req: JsonView) {
    }

    fn name(&self) -> (r: &'static str) {
        "gui-agent"
    }

    fn score(&self, req: &Json) -> (r: u32) {
        let parts: &Vec<Json> = match parts_of(req) {
            Some(parts) => parts,
            None => return 0,
        };
        let has_image: bool = any_part(parts, Feature::Screenshot);
        let has_desktop_obs: bool = any_part(parts, Feature::DesktopObservation);
        if any_part(parts, Feature::GuiEnvConfig) {
            return if has_image || has_desktop_obs {
                97
            } else {
                90
            };
        }
        if has_desktop_obs && has_image {
            return 75;
        }
        0
    }

    fn upstream(&self) -> (r: &Upstream) {
        &self.upstream
    }
}

} // verus!

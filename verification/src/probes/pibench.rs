//! Policy-constrained tool use.
//!
//! Such a request leads with data: a session that starts, or a conversation that
//! goes on. Tools that follow the function-calling schema and structured context
//! reinforce it, and are not enough without it. Which tools they are is not looked at.

use vstd::prelude::*;

use crate::envelope::{message_parts, parts_of, unwrap_part, unwrapped};
use crate::json::{views, Json, JsonView};
use crate::probe::{CapabilityProbe, Upstream, ROUTE_CONFIDENCE_THRESHOLD};

verus! {

/// Recognises tool use under a policy.
pub struct PiBenchProbe {
    upstream: Upstream,
}

impl PiBenchProbe {
    /// The endpoint that this probe was made with.
    pub closed spec fn endpoint(&self) -> Upstream {
        self.upstream
    }

    /// The probe for the specialist at `upstream`.
    pub fn new(upstream: Upstream) -> (r: PiBenchProbe)
        ensures
            r.endpoint() == upstream,
    {
        PiBenchProbe { upstream }
    }
}

/// Whether a tool follows the function-calling schema.
pub open spec fn function_schema(tool: JsonView) -> bool {
    tool.nested("function"@, "name"@) is Some && tool.nested("function"@, "parameters"@) is Some
}

/// Whether the data brings a tool that follows the function-calling schema.
pub open spec fn tools_match(data: JsonView) -> bool {
    data.array_field("tools"@) matches Some(tools) && exists|i: int|
        0 <= i < tools.len() && function_schema(#[trigger] tools[i])
}

fn has_matching_tools(data: &Json) -> (r: bool)
    ensures
        r == tools_match(data@),
{
    match data.array_field("tools") {
        Some(tools) => {
            for i in 0..tools.len()
                invariant
                    data@.array_field("tools"@) == Some(views(tools@)),
                    forall|j: int| 0 <= j < i ==> !function_schema(#[trigger] views(tools@)[j]),
            {
                let tool: &Json = &tools[i];
                assert(views(tools@)[i as int] == tool@);
                if tool.nested("function", "name").is_some() && tool.nested(
                    "function",
                    "parameters",
                ).is_some() {
                    assert(function_schema(data@.array_field("tools"@)->0[i as int]));
                    return true;
                }
            }
            false
        },
        None => false,
    }
}

/// The smaller of a score and certainty.
pub open spec fn capped(score: nat) -> nat {
    if score <= 100 {
        score
    } else {
        100
    }
}

/// Whether the data starts a session.
pub open spec fn session_starts(data: JsonView) -> bool {
    data.field("bootstrap"@) == Some(JsonView::Bool(true))
}

/// Whether the data goes on with a session: it names one and brings its messages.
pub open spec fn session_goes_on(data: JsonView) -> bool {
    data.has_text("context_id"@) && data.has_items("messages"@)
}

/// How well the leading data fits: a session that starts or goes on, and a bonus
/// for tools and for context. The bonus reinforces a session; without one it never
/// reaches the threshold.
pub open spec fn tooluse_data_fit(data: JsonView) -> nat {
    let tools: nat = if tools_match(data) {
        25
    } else {
        0
    };
    let context: nat = if data.has_items("benchmark_context"@) {
        10
    } else {
        0
    };
    if session_starts(data) {
        capped(70 + tools + context)
    } else if session_goes_on(data) {
        capped(65 + tools + context)
    } else if tools + context < ROUTE_CONFIDENCE_THRESHOLD {
        tools + context
    } else {
        (ROUTE_CONFIDENCE_THRESHOLD - 1) as nat
    }
}

/// How well a message with these parts fits: what the data of its first part says.
pub open spec fn policy_tooluse_fit(parts: Seq<JsonView>) -> nat {
    if parts.len() == 0 {
        0
    } else {
        match unwrapped(parts[0]).field("data"@) {
            Some(data) => tooluse_data_fit(data),
            None => 0,
        }
    }
}

impl CapabilityProbe for PiBenchProbe {
    open spec fn capability(&self) -> Seq<char> {
        "policy-tooluse"@
    }

    open spec fn fit(&self, req: JsonView) -> nat {
        match message_parts(req) {
            Some(parts) => policy_tooluse_fit(parts),
            None => 0,
        }
    }

    open spec fn specialist(&self) -> Upstream {
        self.endpoint()
    }

    proof fn fit_is_bounded(&self, req: JsonView) {
    }

    fn name(&self) -> (r: &'static str) {
        "policy-tooluse"
    }

    fn score(&self, req: &Json) -> (r: u32) {
        let parts: &Vec<Json> = match parts_of(req) {
            Some(parts) => parts,
            None => return 0,
        };
        if parts.len() == 0 {
            return 0;
        }
        let p: &Json = unwrap_part(&parts[0]);
        assert(views(parts@)[0] == parts[0]@);
        let data: &Json = match p.get("data") {
            Some(data) => data,
            None => return 0,
        };
        let mut signal: u32 = 0;
        let bootstrap: bool = match data.get("bootstrap") {
            Some(b) => match b.as_bool() {
                Some(b) => b,
                None => false,
            },
            None => false,
        };
        if bootstrap {
            signal = 70;
        } else if data.has_text("context_id") && data.has_items("messages") {
            signal = 65;
        }
        let session: bool = signal > 0;
        if has_matching_tools(data) {
            signal = signal + 25;
        }
        if data.has_items("benchmark_context") {
            signal = signal + 10;
        }
        if signal > 100 {
            signal = 100;
        }
        if !session && signal >= ROUTE_CONFIDENCE_THRESHOLD {
            signal = ROUTE_CONFIDENCE_THRESHOLD - 1;
        }
        signal
    }

    fn upstream(&self) -> (r: &Upstream) {
        &self.upstream
    }
}

} // verus!

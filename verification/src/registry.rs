//! The capabilities that the router is registered with.

use vstd::prelude::*;

use crate::envelope::message_parts;
use crate::json::{Json, JsonView};
use crate::probe::{CapabilityProbe, ResponseShape, Upstream};
use crate::probes::cybergym::{vuln_repro_fit, CyberGymProbe};
use crate::probes::fwa::{vision_qa_fit, FwaProbe};
use crate::probes::netarena::{text_codegen_fit, NetArenaProbe};
use crate::probes::osworld::{gui_agent_fit, OsworldProbe};
use crate::probes::pibench::{policy_tooluse_fit, PiBenchProbe};
use crate::routing::fits;

verus! {

/// The configured addresses of the specialists, by capability; one that is missing
/// has a default.
pub struct UpstreamUrls {
    pub vuln_repro: Option<String>,
    pub policy_tooluse: Option<String>,
    pub text_codegen: Option<String>,
    pub vision_qa: Option<String>,
    pub gui_agent: Option<String>,
}

/// The configured address or, where there is none, the default.
pub open spec fn url_or(url: Option<String>, default: Seq<char>) -> Seq<char> {
    match url {
        Some(u) => u@,
        None => default,
    }
}

fn upstream_at(url: Option<String>, default: &str, response_shape: ResponseShape) -> (r: Upstream)
    ensures
        r.url@ == url_or(url, default@),
        r.response_shape == response_shape,
{
    let url: String = match url {
        Some(u) => u,
        None => default.to_owned(),
    };
    Upstream { url, response_shape }
}

/// The names of the capabilities, in the order in which they are registered.
pub open spec fn capability_names() -> Seq<Seq<char>> {
    seq!["vuln-repro"@, "policy-tooluse"@, "text-codegen"@, "vision-qa"@, "gui-agent"@]
}

/// The fits of a message with these parts, in the order of the names.
pub open spec fn part_fits(parts: Seq<JsonView>) -> Seq<nat> {
    seq![
        vuln_repro_fit(parts),
        policy_tooluse_fit(parts),
        text_codegen_fit(parts),
        vision_qa_fit(parts),
        gui_agent_fit(parts),
    ]
}

/// The fits of a request, in the order of the names.
pub open spec fn request_fits(req: JsonView) -> Seq<nat> {
    match message_parts(req) {
        Some(parts) => part_fits(parts),
        None => seq![0, 0, 0, 0, 0],
    }
}

/// A probe of any capability.
pub enum Probe {
    VulnRepro(CyberGymProbe),
    PolicyTooluse(PiBenchProbe),
    TextCodegen(NetArenaProbe),
    VisionQa(FwaProbe),
    GuiAgent(OsworldProbe),
}

impl CapabilityProbe for Probe {
    open spec fn capability(&self) -> Seq<char> {
        match self {
            Probe::VulnRepro(p) => p.capability(),
            Probe::PolicyTooluse(p) => p.capability(),
            Probe::TextCodegen(p) => p.capability(),
            Probe::VisionQa(p) => p.capability(),
            Probe::GuiAgent(p) => p.capability(),
        }
    }

    open spec fn fit(&self, req: JsonView) -> nat {
        match self {
            Probe::VulnRepro(p) => p.fit(req),
            Probe::PolicyTooluse(p) => p.fit(req),
            Probe::TextCodegen(p) => p.fit(req),
            Probe::VisionQa(p) => p.fit(req),
            Probe::GuiAgent(p) => p.fit(req),
        }
    }

    open spec fn specialist(&self) -> Upstream {
        match self {
            Probe::VulnRepro(p) => p.specialist(),
            Probe::PolicyTooluse(p) => p.specialist(),
            Probe::TextCodegen(p) => p.specialist(),
            Probe::VisionQa(p) => p.specialist(),
            Probe::GuiAgent(p) => p.specialist(),
        }
    }

    proof fn fit_is_bounded(&self, req: JsonView) {
    }

    fn name(&self) -> (r: &'static str) {
        match self {
            Probe::VulnRepro(p) => p.name(),
            Probe::PolicyTooluse(p) => p.name(),
            Probe::TextCodegen(p) => p.name(),
            Probe::VisionQa(p) => p.name(),
            Probe::GuiAgent(p) => p.name(),
        }
    }

    fn score(&self, req: &Json) -> (r: u32) {
        match self {
            Probe::VulnRepro(p) => p.score(req),
            Probe::PolicyTooluse(p) => p.score(req),
            Probe::TextCodegen(p) => p.score(req),
            Probe::VisionQa(p) => p.score(req),
            Probe::GuiAgent(p) => p.score(req),
        }
    }

    fn upstream(&self) -> (r: &Upstream) {
        match self {
            Probe::VulnRepro(p) => p.upstream(),
            Probe::PolicyTooluse(p) => p.upstream(),
            Probe::TextCodegen(p) => p.upstream(),
            Probe::VisionQa(p) => p.upstream(),
            Probe::GuiAgent(p) => p.upstream(),
        }
    }
}

/// Whether a probe is registered as the `i`-th capability, at this address.
pub open spec fn registered(probe: Probe, i: int, url: Seq<char>, shape: ResponseShape) -> bool {
    &&& probe.capability() == capability_names()[i]
    &&& probe.specialist().url@ == url
    &&& probe.specialist().response_shape == shape
}

/// The probes of all capabilities, with the specialists at the given addresses.
pub fn build_probes(urls: UpstreamUrls) -> (r: Vec<Probe>)
    ensures
        r@.len() == 5,
        registered(r@[0], 0, url_or(urls.vuln_repro, "http://cybergym-agentx:9019"@), ResponseShape::Sse),
        registered(r@[1], 1, url_or(urls.policy_tooluse, "http://pibench-agentx:8766"@), ResponseShape::Json),
        registered(r@[2], 2, url_or(urls.text_codegen, "http://netarena-agentx:9019"@), ResponseShape::Json),
        registered(r@[3], 3, url_or(urls.vision_qa, "http://fwa-agentx:8090"@), ResponseShape::Json),
        registered(r@[4], 4, url_or(urls.gui_agent, "http://osworld-agentx:8080"@), ResponseShape::Json),
        forall|req: JsonView| #[trigger] fits(r@, req) == request_fits(req),
{
    let mut probes: Vec<Probe> = Vec::new();
    let upstream: Upstream = upstream_at(urls.vuln_repro, "http://cybergym-agentx:9019", ResponseShape::Sse);
    probes.push(Probe::VulnRepro(CyberGymProbe::new(upstream)));
    let upstream: Upstream = upstream_at(urls.policy_tooluse, "http://pibench-agentx:8766", ResponseShape::Json);
    probes.push(Probe::PolicyTooluse(PiBenchProbe::new(upstream)));
    let upstream: Upstream = upstream_at(urls.text_codegen, "http://netarena-agentx:9019", ResponseShape::Json);
    probes.push(Probe::TextCodegen(NetArenaProbe::new(upstream)));
    let upstream: Upstream = upstream_at(urls.vision_qa, "http://fwa-agentx:8090", ResponseShape::Json);
    probes.push(Probe::VisionQa(FwaProbe::new(upstream)));
    let upstream: Upstream = upstream_at(urls.gui_agent, "http://osworld-agentx:8080", ResponseShape::Json);
    probes.push(Probe::GuiAgent(OsworldProbe::new(upstream)));
    assert forall|req: JsonView| #[trigger] fits(probes@, req) == request_fits(req) by {
        assert(fits(probes@, req) =~= request_fits(req));
    }
    probes
}

/// A configured address counts; the default stands in for a missing one.
pub proof fn law_configured_addresses_count(url: String, default: Seq<char>)
    ensures
        url_or(Some(url), default) == url@,
        url_or(None, default) == default,
{
}

/// Each capability has its own place among the scores of a request.
pub proof fn law_scores_stand_in_place(parts: Seq<JsonView>)
    ensures
        part_fits(parts) == seq![
            vuln_repro_fit(parts),
            policy_tooluse_fit(parts),
            text_codegen_fit(parts),
            vision_qa_fit(parts),
            gui_agent_fit(parts),
        ],
        capability_names() == seq![
            "vuln-repro"@,
            "policy-tooluse"@,
            "text-codegen"@,
            "vision-qa"@,
            "gui-agent"@,
        ],
{
}

/// A probe of any capability is that capability's probe: its name, its score and its
/// specialist are its own.
pub proof fn law_probes_are_their_own(
    a: CyberGymProbe,
    b: PiBenchProbe,
    c: NetArenaProbe,
    d: FwaProbe,
    e: OsworldProbe,
    req: JsonView,
)
    ensures
        Probe::VulnRepro(a).capability() == "vuln-repro"@ && Probe::VulnRepro(a).specialist()
            == a.endpoint(),
        Probe::PolicyTooluse(b).capability() == "policy-tooluse"@ && Probe::PolicyTooluse(
            b,
        ).specialist() == b.endpoint(),
        Probe::TextCodegen(c).capability() == "text-codegen"@ && Probe::TextCodegen(c).specialist()
            == c.endpoint(),
        Probe::VisionQa(d).capability() == "vision-qa"@ && Probe::VisionQa(d).specialist()
            == d.endpoint(),
        Probe::GuiAgent(e).capability() == "gui-agent"@ && Probe::GuiAgent(e).specialist()
            == e.endpoint(),
        message_parts(req) matches Some(parts) ==> Probe::VulnRepro(a).fit(req) == vuln_repro_fit(
            parts,
        ) && Probe::PolicyTooluse(b).fit(req) == policy_tooluse_fit(parts) && Probe::TextCodegen(
            c,
        ).fit(req) == text_codegen_fit(parts) && Probe::VisionQa(d).fit(req) == vision_qa_fit(parts)
            && Probe::GuiAgent(e).fit(req) == gui_agent_fit(parts),
        message_parts(req) is None ==> Probe::VulnRepro(a).fit(req) == 0 && Probe::PolicyTooluse(
            b,
        ).fit(req) == 0 && Probe::TextCodegen(c).fit(req) == 0 && Probe::VisionQa(d).fit(req) == 0
            && Probe::GuiAgent(e).fit(req) == 0,
{
}

} // verus!

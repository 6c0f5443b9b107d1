//! What the router tells about itself: its agent card and its health.

use vstd::prelude::*;

use crate::json::{array_json, str_views, texts_json, texts_view, views, Json, JsonView, Members};
use crate::probe::CapabilityProbe;
use crate::text::same_text;

verus! {

/// What a capability is for, in one sentence.
pub open spec fn description_of(name: Seq<char>) -> Seq<char> {
    if name == "vuln-repro"@ {
        "Vulnerability reproduction — generate crash-triggering PoC input from a vulnerable source tree."@
    } else if name == "policy-tooluse"@ {
        "Policy-constrained tool use with structured decision recording across compliance and operations scenarios."@
    } else if name == "text-codegen"@ {
        "Code generation against textual task descriptions involving data transformations."@
    } else if name == "vision-qa"@ {
        "Question answering grounded in visual document inputs (images, scans)."@
    } else if name == "gui-agent"@ {
        "GUI agent — interpret screenshots and emit coordinate-based actions to accomplish desktop tasks."@
    } else {
        "Capability handler."@
    }
}

/// What a capability is for, in one sentence.
pub fn capability_description(name: &str) -> (r: &'static str)
    ensures
        r@ == description_of(name@),
{
    if same_text(name, "vuln-repro") {
        "Vulnerability reproduction — generate crash-triggering PoC input from a vulnerable source tree."
    } else if same_text(name, "policy-tooluse") {
        "Policy-constrained tool use with structured decision recording across compliance and operations scenarios."
    } else if same_text(name, "text-codegen") {
        "Code generation against textual task descriptions involving data transformations."
    } else if same_text(name, "vision-qa") {
        "Question answering grounded in visual document inputs (images, scans)."
    } else if same_text(name, "gui-agent") {
        "GUI agent — interpret screenshots and emit coordinate-based actions to accomplish desktop tasks."
    } else {
        "Capability handler."
    }
}

/// The report that the router is up.
pub open spec fn health_document(version: Seq<char>) -> JsonView {
    JsonView::Object(
        map![
            "status"@ => JsonView::Str("ok"@),
            "service"@ => JsonView::Str("universal-router"@),
            "version"@ => JsonView::Str(version),
        ],
    )
}

/// The report that the router is up.
pub fn health(version: &str) -> (r: Json)
    ensures
        r@ == health_document(version@),
{
    Members::new().with_text("status", "ok").with_text("service", "universal-router").with_text(
        "version",
        version,
    ).object()
}

/// The skill that stands for a capability.
pub open spec fn skill_document(name: Seq<char>) -> JsonView {
    JsonView::Object(
        map![
            "id"@ => JsonView::Str(name),
            "name"@ => JsonView::Str(name),
            "description"@ => JsonView::Str(description_of(name)),
            "tags"@ => texts_view(seq!["agentx"@, "purple"@, name]),
        ],
    )
}

/// The skill that stands for a capability.
pub fn skill(name: &str) -> (r: Json)
    ensures
        r@ == skill_document(name@),
{
    let tags = ["agentx", "purple", name];
    assert(str_views(tags@) =~= seq!["agentx"@, "purple"@, name@]);
    Members::new().with_text("id", name).with_text("name", name).with_text(
        "description",
        capability_description(name),
    ).with("tags", texts_json(&tags)).object()
}

/// The skills of the registered probes, in their order.
pub open spec fn skill_documents<P: CapabilityProbe>(probes: Seq<P>) -> Seq<JsonView> {
    Seq::new(probes.len(), |i: int| skill_document(probes[i].capability()))
}

/// The card that tells other agents what the router can do.
pub open spec fn card_document<P: CapabilityProbe>(
    probes: Seq<P>,
    url: Seq<char>,
    version: Seq<char>,
) -> JsonView {
    JsonView::Object(
        map![
            "name"@ => JsonView::Str("for-the-cloud-purple-router"@),
            "description"@ => JsonView::Str(
                "Universal purple agent — capability-based routing across vuln-repro, policy-tooluse, text-codegen, vision-qa, and gui-agent specialists."@,
            ),
            "url"@ => JsonView::Str(url),
            "version"@ => JsonView::Str(version),
            "protocolVersion"@ => JsonView::Str("0.3.0"@),
            "preferredTransport"@ => JsonView::Str("JSONRPC"@),
            "defaultInputModes"@ => texts_view(seq!["text"@, "file"@, "application/json"@]),
            "defaultOutputModes"@ => texts_view(seq!["text"@, "file"@, "application/json"@]),
            "capabilities"@ => JsonView::Object(
                map![
                    "streaming"@ => JsonView::Bool(true),
                    "pushNotifications"@ => JsonView::Bool(false),
                ],
            ),
            "skills"@ => JsonView::Array(skill_documents(probes)),
        ],
    )
}

/// The card that tells other agents what the router can do: one skill for each
/// registered probe.
pub fn agent_card<P: CapabilityProbe>(probes: &Vec<P>, url: &str, version: &str) -> (r: Json)
    ensures
        r@ == card_document(probes@, url@, version@),
{
    let mut skills: Vec<Json> = Vec::new();
    for i in 0..probes.len()
        invariant
            skills.len() == i,
            forall|j: int| 0 <= j < i ==> (#[trigger] skills[j])@ == skill_documents(probes@)[j],
    {
        skills.push(skill(probes[i].name()));
    }
    assert(views(skills@) =~= skill_documents(probes@));
    let capabilities: Json = Members::new().with("streaming", Json::Bool(true)).with(
        "pushNotifications",
        Json::Bool(false),
    ).object();
    let modes = ["text", "file", "application/json"];
    assert(str_views(modes@) =~= seq!["text"@, "file"@, "application/json"@]);
    Members::new().with_text("name", "for-the-cloud-purple-router").with_text(
        "description",
        "Universal purple agent — capability-based routing across vuln-repro, policy-tooluse, text-codegen, vision-qa, and gui-agent specialists.",
    ).with_text("url", url).with_text("version", version).with_text(
        "protocolVersion",
        "0.3.0",
    ).with_text("preferredTransport", "JSONRPC").with(
        "defaultInputModes",
        texts_json(&modes),
    ).with("defaultOutputModes", texts_json(&modes)).with(
        "capabilities",
        capabilities,
    ).with("skills", array_json(skills)).object()
}

/// The card tells the address and the version that it was given, and one skill for each
/// probe, in order and under the probe's name.
pub proof fn law_the_card_tells_the_skills<P: CapabilityProbe>(
    probes: Seq<P>,
    url: Seq<char>,
    version: Seq<char>,
    i: int,
)
    requires
        0 <= i < probes.len(),
    ensures
        card_document(probes, url, version).field("url"@) == Some(JsonView::Str(url)),
        card_document(probes, url, version).field("version"@) == Some(JsonView::Str(version)),
        card_document(probes, url, version).array_field("skills"@) is Some,
        card_document(probes, url, version).array_field("skills"@)->0.len() == probes.len(),
        card_document(probes, url, version).array_field("skills"@)->0[i].str_field("id"@) == Some(
            probes[i].capability(),
        ),
        card_document(probes, url, version).array_field("skills"@)->0[i].str_field("name"@) == Some(
            probes[i].capability(),
        ),
        card_document(probes, url, version).array_field("skills"@)->0[i].str_field("description"@)
            == Some(description_of(probes[i].capability())),
        card_document(probes, url, version).array_field("skills"@)->0[i].array_field("tags"@)
            == Some(
            seq![
                JsonView::Str("agentx"@),
                JsonView::Str("purple"@),
                JsonView::Str(probes[i].capability()),
            ],
        ),
{
    reveal_strlit("url");
    reveal_strlit("version");
    reveal_strlit("protocolVersion");
    reveal_strlit("preferredTransport");
    reveal_strlit("defaultInputModes");
    reveal_strlit("defaultOutputModes");
    reveal_strlit("capabilities");
    reveal_strlit("skills");
    reveal_strlit("id");
    reveal_strlit("name");
    reveal_strlit("description");
    reveal_strlit("tags");
    assert("url"@.len() == 3 && "version"@.len() == 7 && "protocolVersion"@.len() == 15);
    assert("preferredTransport"@.len() == 18 && "defaultInputModes"@.len() == 17);
    assert("defaultOutputModes"@.len() == 18 && "capabilities"@.len() == 12);
    assert("skills"@.len() == 6 && "id"@.len() == 2 && "name"@.len() == 4);
    assert("name"@[0] == 'n' && "tags"@[0] == 't' && "description"@.len() == 11);
    let skill = skill_document(probes[i].capability());
    assert(card_document(probes, url, version).array_field("skills"@)->0[i] == skill);
    assert(skill.array_field("tags"@)->0 =~= seq![
        JsonView::Str("agentx"@),
        JsonView::Str("purple"@),
        JsonView::Str(probes[i].capability()),
    ]);
}

/// Every capability is described in its own words, and any other name as a handler.
pub proof fn law_capabilities_are_described(name: Seq<char>, version: Seq<char>)
    ensures
        name == "vuln-repro"@ ==> description_of(name)
            == "Vulnerability reproduction — generate crash-triggering PoC input from a vulnerable source tree."@,
        name == "policy-tooluse"@ ==> description_of(name)
            == "Policy-constrained tool use with structured decision recording across compliance and operations scenarios."@,
        name == "text-codegen"@ ==> description_of(name)
            == "Code generation against textual task descriptions involving data transformations."@,
        name == "vision-qa"@ ==> description_of(name)
            == "Question answering grounded in visual document inputs (images, scans)."@,
        name == "gui-agent"@ ==> description_of(name)
            == "GUI agent — interpret screenshots and emit coordinate-based actions to accomplish desktop tasks."@,
        name != "vuln-repro"@ && name != "policy-tooluse"@ && name != "text-codegen"@ && name
            != "vision-qa"@ && name != "gui-agent"@ ==> description_of(name)
            == "Capability handler."@,
        health_document(version).field("version"@) == Some(JsonView::Str(version)),
        health_document(version).field("status"@) == Some(JsonView::Str("ok"@)),
{
    reveal_strlit("vuln-repro");
    reveal_strlit("policy-tooluse");
    reveal_strlit("text-codegen");
    reveal_strlit("vision-qa");
    reveal_strlit("gui-agent");
    reveal_strlit("version");
    reveal_strlit("status");
    reveal_strlit("service");
    assert("vuln-repro"@.len() == 10 && "policy-tooluse"@.len() == 14);
    assert("text-codegen"@.len() == 12 && "vision-qa"@[0] == 'v' && "gui-agent"@[0] == 'g');
    assert("vision-qa"@.len() == 9 && "gui-agent"@.len() == 9);
    assert("version"@[0] == 'v' && "service"@[0] == 's' && "status"@.len() == 6);
    assert("service"@.len() == 7 && "version"@.len() == 7);
}

/// The router says what it is called, which protocol it speaks, what it takes and gives, and
/// that it streams; its health is told under its own name.
pub proof fn law_the_card_tells_the_router<P: CapabilityProbe>(
    probes: Seq<P>,
    url: Seq<char>,
    version: Seq<char>,
)
    ensures
        ({
            let card = card_document(probes, url, version);
            let modes = seq![
                JsonView::Str("text"@),
                JsonView::Str("file"@),
                JsonView::Str("application/json"@),
            ];
            &&& card.field("name"@) == Some(JsonView::Str("for-the-cloud-purple-router"@))
            &&& card.field("protocolVersion"@) == Some(JsonView::Str("0.3.0"@))
            &&& card.field("preferredTransport"@) == Some(JsonView::Str("JSONRPC"@))
            &&& card.array_field("defaultInputModes"@) == Some(modes)
            &&& card.array_field("defaultOutputModes"@) == Some(modes)
            &&& card.nested("capabilities"@, "streaming"@) == Some(JsonView::Bool(true))
            &&& card.nested("capabilities"@, "pushNotifications"@) == Some(JsonView::Bool(false))
            &&& health_document(version).field("service"@) == Some(
                JsonView::Str("universal-router"@),
            )
        }),
{
    reveal_strlit("name");
    reveal_strlit("description");
    reveal_strlit("url");
    reveal_strlit("version");
    reveal_strlit("protocolVersion");
    reveal_strlit("preferredTransport");
    reveal_strlit("defaultInputModes");
    reveal_strlit("defaultOutputModes");
    reveal_strlit("capabilities");
    reveal_strlit("skills");
    reveal_strlit("streaming");
    reveal_strlit("pushNotifications");
    reveal_strlit("service");
    reveal_strlit("status");
    assert("name"@.len() == 4 && "description"@.len() == 11 && "url"@.len() == 3);
    assert("version"@.len() == 7 && "protocolVersion"@.len() == 15 && "skills"@.len() == 6);
    assert("preferredTransport"@.len() == 18 && "preferredTransport"@[0] == 'p');
    assert("defaultInputModes"@.len() == 17 && "capabilities"@.len() == 12);
    assert("defaultOutputModes"@.len() == 18 && "defaultOutputModes"@[0] == 'd');
    assert("streaming"@.len() == 9 && "pushNotifications"@.len() == 17);
    assert("version"@[0] == 'v' && "service"@[0] == 's');
    let card = card_document(probes, url, version);
    let modes = seq![
        JsonView::Str("text"@),
        JsonView::Str("file"@),
        JsonView::Str("application/json"@),
    ];
    assert(card.array_field("defaultInputModes"@)->0 =~= modes);
    assert(card.array_field("defaultOutputModes"@)->0 =~= modes);
}

} // verus!

//! What holds of the router as a whole.
//!
//! Each proof function states one law over the functions that the contracts speak of.

use vstd::prelude::*;

use crate::envelope::{
    claimed_data, desktop_observation, gui_env_config, gui_fingerprint, message_parts, of_kind, of_kind_or_type, shows, some_part, unwrapped, Feature,
};
use crate::forward::{error_reply, forwarded};
use crate::json::JsonView;
use crate::probe::{CapabilityProbe, ROUTE_CONFIDENCE_THRESHOLD};
use crate::probes::cybergym::vuln_repro_fit;
use crate::probes::fwa::vision_qa_fit;
use crate::probes::netarena::text_codegen_fit;
use crate::probes::osworld::gui_agent_fit;
use crate::probes::pibench::{
    function_schema, policy_tooluse_fit, session_goes_on, session_starts, tools_match,
    tooluse_data_fit,
};
use crate::registry::{part_fits, request_fits};
use crate::routing::{
    decision, first_best, fits, handled, lemma_first_best, routed, unsure_message, Decision,
    RouteView,
};
use crate::text::{begins, ends, holds, lowered};
use crate::wire::{json_parsed, Parsed};

verus! {

/// Every score lies between nothing and certainty.
pub proof fn law_scores_are_hundredths(req: JsonView, i: int)
    requires
        0 <= i < 5,
    ensures
        request_fits(req).len() == 5,
        0 <= request_fits(req)[i] <= 100,
{
}

/// A request is routed to a probe that scores best, to the earliest of several, and only
/// where that score reaches the threshold; it is refused exactly where no score does.
pub proof fn law_best_probe_wins(scores: Seq<nat>)
    requires
        0 < scores.len() <= usize::MAX,
        forall|i: int| 0 <= i < scores.len() ==> #[trigger] scores[i] <= 100,
    ensures
        match decision(scores) {
            Decision::NoProbes => false,
            Decision::Unsure(top) => {
                &&& forall|i: int| 0 <= i < scores.len() ==> #[trigger] scores[i] <= top
                &&& top < ROUTE_CONFIDENCE_THRESHOLD
            },
            Decision::Route(best) => {
                &&& best.probe < scores.len()
                &&& scores[best.probe as int] == best.score
                &&& best.score >= ROUTE_CONFIDENCE_THRESHOLD
                &&& forall|i: int| 0 <= i < scores.len() ==> #[trigger] scores[i] <= best.score
                &&& forall|i: int| 0 <= i < best.probe ==> #[trigger] scores[i] < best.score
            },
        },
        decision(scores) is Unsure <==> forall|i: int|
            0 <= i < scores.len() ==> #[trigger] scores[i] < ROUTE_CONFIDENCE_THRESHOLD,
{
    lemma_first_best(scores, scores.len() as int);
    let b = first_best(scores, scores.len() as int);
    assert(scores[b] <= 100);
}

/// What is forwarded is the body that came in, byte for byte, and it goes to the
/// specialist of a probe that scores best, the earliest of several, and reaches the
/// threshold. A body that is no JSON is never forwarded.
pub proof fn law_forwarding_is_verbatim<P: CapabilityProbe>(probes: Seq<P>, body: Seq<u8>)
    requires
        probes.len() <= usize::MAX,
    ensures
        handled(probes, body) matches RouteView::Forward(sent) ==> {
            &&& sent.body == body
            &&& json_parsed(body) matches Parsed::Document(req) && exists|b: int|
                {
                    &&& 0 <= b < probes.len()
                    &&& sent == forwarded(
                        (#[trigger] probes[b]).specialist(),
                        body,
                        probes[b].capability(),
                    )
                    &&& probes[b].fit(req) >= ROUTE_CONFIDENCE_THRESHOLD
                    &&& forall|i: int|
                        0 <= i < probes.len() ==> (#[trigger] probes[i]).fit(req)
                            <= probes[b].fit(req)
                    &&& forall|i: int|
                        0 <= i < b ==> (#[trigger] probes[i]).fit(req) < probes[b].fit(req)
                }
        },
{
    if let Parsed::Document(req) = json_parsed(body) {
        let scores = fits(probes, req);
        if probes.len() > 0 {
            assert forall|i: int| 0 <= i < scores.len() implies #[trigger] scores[i] <= 100 by {
                probes[i].fit_is_bounded(req);
            }
            law_best_probe_wins(scores);
            if let Decision::Route(best) = decision(scores) {
                let b = best.probe as int;
                assert(scores[b] == probes[b].fit(req));
                assert forall|i: int| 0 <= i < probes.len() implies (#[trigger] probes[i]).fit(req)
                    <= probes[b].fit(req) by {
                    assert(scores[i] == probes[i].fit(req));
                }
                assert forall|i: int| 0 <= i < b implies (#[trigger] probes[i]).fit(req)
                    < probes[b].fit(req) by {
                    assert(scores[i] == probes[i].fit(req));
                }
            }
        }
    }
}

/// A request that no probe is sure enough of is refused with status 422, and sent to
/// nobody.
pub proof fn law_unsure_requests_are_refused<P: CapabilityProbe>(
    probes: Seq<P>,
    req: JsonView,
    body: Seq<u8>,
)
    requires
        0 < probes.len() <= usize::MAX,
        forall|i: int|
            0 <= i < probes.len() ==> (#[trigger] probes[i]).fit(req) < ROUTE_CONFIDENCE_THRESHOLD,
    ensures
        exists|top: nat|
            {
                &&& top < ROUTE_CONFIDENCE_THRESHOLD
                &&& routed(probes, req, body) == RouteView::Reply(
                    error_reply(422, #[trigger] unsure_message(top)),
                )
                &&& forall|i: int| 0 <= i < probes.len() ==> (#[trigger] probes[i]).fit(req) <= top
                &&& exists|i: int| 0 <= i < probes.len() && (#[trigger] probes[i]).fit(req) == top
            },
{
    let scores = fits(probes, req);
    assert forall|i: int| 0 <= i < scores.len() implies #[trigger] scores[i]
        < ROUTE_CONFIDENCE_THRESHOLD by {
        assert(scores[i] == probes[i].fit(req));
    }
    law_best_probe_wins(scores);
    let top = decision(scores)->Unsure_0 as nat;
    lemma_first_best(scores, scores.len() as int);
    let b = first_best(scores, scores.len() as int);
    assert(scores[b] == probes[b].fit(req));
    assert forall|i: int| 0 <= i < probes.len() implies (#[trigger] probes[i]).fit(req) <= top by {
        assert(scores[i] == probes[i].fit(req));
    }
    assert(unsure_message(top) == unsure_message(top));
}

/// Only the parts of the message count: what else a request holds changes no score.
pub proof fn law_only_parts_count(req1: JsonView, req2: JsonView)
    requires
        message_parts(req1) == message_parts(req2),
    ensures
        request_fits(req1) == request_fits(req2),
{
}

/// Whether two messages have the same parts once their envelopes are taken off.
pub open spec fn same_inside(parts1: Seq<JsonView>, parts2: Seq<JsonView>) -> bool {
    &&& parts1.len() == parts2.len()
    &&& forall|i: int|
        0 <= i < parts1.len() ==> unwrapped(#[trigger] parts1[i]) == unwrapped(#[trigger] parts2[i])
}

proof fn lemma_same_features(parts1: Seq<JsonView>, parts2: Seq<JsonView>, feature: Feature)
    requires
        same_inside(parts1, parts2),
        some_part(parts1, feature),
    ensures
        some_part(parts2, feature),
{
    let i = choose|i: int| 0 <= i < parts1.len() && shows(unwrapped(#[trigger] parts1[i]), feature);
    assert(unwrapped(parts1[i]) == unwrapped(parts2[i]));
}

/// The envelope that some clients put around a part makes no difference to any score.
pub proof fn law_envelopes_do_not_count(parts1: Seq<JsonView>, parts2: Seq<JsonView>)
    requires
        same_inside(parts1, parts2),
    ensures
        part_fits(parts1) == part_fits(parts2),
{
    assert forall|f: Feature| #[trigger] some_part(parts1, f) == some_part(parts2, f) by {
        if some_part(parts1, f) {
            lemma_same_features(parts1, parts2, f);
        }
        if some_part(parts2, f) {
            lemma_same_features(parts2, parts1, f);
        }
    }
    if parts1.len() > 0 {
        assert(unwrapped(parts1[0]) == unwrapped(parts2[0]));
    }
    assert(part_fits(parts1) =~= part_fits(parts2));
}

/// Apart from tool use, which looks at the first part, no capability depends on the order
/// of the parts, nor on whether one is repeated.
pub proof fn law_order_does_not_count(parts1: Seq<JsonView>, parts2: Seq<JsonView>)
    requires
        forall|p: JsonView| #[trigger] parts1.contains(p) <==> parts2.contains(p),
    ensures
        vuln_repro_fit(parts1) == vuln_repro_fit(parts2),
        text_codegen_fit(parts1) == text_codegen_fit(parts2),
        vision_qa_fit(parts1) == vision_qa_fit(parts2),
        gui_agent_fit(parts1) == gui_agent_fit(parts2),
{
    assert forall|f: Feature| #[trigger] some_part(parts1, f) == some_part(parts2, f) by {
        if some_part(parts1, f) {
            let i = choose|i: int| 0 <= i < parts1.len() && shows(
                unwrapped(#[trigger] parts1[i]),
                f,
            );
            assert(parts1.contains(parts1[i]));
            let j = choose|j: int| 0 <= j < parts2.len() && parts2[j] == parts1[i];
            assert(shows(unwrapped(parts2[j]), f));
        }
        if some_part(parts2, f) {
            let i = choose|i: int| 0 <= i < parts2.len() && shows(
                unwrapped(#[trigger] parts2[i]),
                f,
            );
            assert(parts2.contains(parts2[i]));
            assert(parts1.contains(parts2[i]));
            let j = choose|j: int| 0 <= j < parts1.len() && parts1[j] == parts2[i];
            assert(shows(unwrapped(parts1[j]), f));
        }
    }
}

/// Whether `p2` is `p1` with the words of the string `key` changed: there were words, and
/// there are words.
pub open spec fn reworded_at(p1: JsonView, p2: JsonView, key: Seq<char>) -> bool {
    exists|words: Seq<char>|
        {
            &&& words.len() > 0
            &&& p1.has_text(key)
            &&& p2 == JsonView::Object(#[trigger] p1->Object_0.insert(key, JsonView::Str(words)))
        }
}

/// Whether `p2` is `p1` with the words of the query in its data changed.
pub open spec fn query_reworded(p1: JsonView, p2: JsonView) -> bool {
    exists|data: JsonView|
        {
            &&& p1.field("data"@) is Some
            &&& #[trigger] reworded_at(p1.field("data"@)->0, data, "query"@)
            &&& p2 == JsonView::Object(p1->Object_0.insert("data"@, data))
        }
}

/// Whether `p2` is `p1` in other words: those of its text, or of the query in its data.
pub open spec fn reworded(p1: JsonView, p2: JsonView) -> bool {
    reworded_at(p1, p2, "text"@) || query_reworded(p1, p2)
}

proof fn lemma_part_members_differ()
    ensures
        "text"@ != "kind"@ && "text"@ != "type"@ && "text"@ != "file"@ && "text"@ != "data"@,
        "data"@ != "kind"@ && "data"@ != "type"@ && "data"@ != "file"@,
{
    reveal_strlit("text");
    reveal_strlit("kind");
    reveal_strlit("type");
    reveal_strlit("file");
    reveal_strlit("data");
    assert("text"@[2] == 'x');
    assert("kind"@[2] == 'n');
    assert("type"@[2] == 'p');
    assert("file"@[2] == 'l');
    assert("data"@[2] == 't');
}

/// Changing the words of a query changes no other member of the data.
proof fn lemma_query_is_apart(d1: JsonView, d2: JsonView)
    requires
        reworded_at(d1, d2, "query"@),
    ensures
        d1.has_text("query"@) && d2.has_text("query"@),
        desktop_observation(d1) == desktop_observation(d2),
        gui_env_config(d1) == gui_env_config(d2),
        gui_fingerprint(d1) == gui_fingerprint(d2),
        claimed_data(d1) == claimed_data(d2),
        d1.field("exit_code"@) == d2.field("exit_code"@),
        tooluse_data_fit(d1) == tooluse_data_fit(d2),
{
    reveal_strlit("query");
    reveal_strlit("tools");
    reveal_strlit("bootstrap");
    reveal_strlit("messages");
    reveal_strlit("exit_code");
    reveal_strlit("context_id");
    reveal_strlit("benchmark_context");
    reveal_strlit("env_config");
    reveal_strlit("action_space");
    reveal_strlit("observation_type");
    reveal_strlit("screen_size");
    reveal_strlit("observation");
    reveal_strlit("accessibility_tree");
    reveal_strlit("a11y_tree");
    reveal_strlit("terminal");
    assert("query"@.len() == 5 && "query"@[0] == 'q' && "tools"@[0] == 't');
    assert("bootstrap"@.len() == 9 && "messages"@.len() == 8 && "exit_code"@.len() == 9);
    assert("context_id"@.len() == 10 && "benchmark_context"@.len() == 17);
    assert("env_config"@.len() == 10 && "action_space"@.len() == 12);
    assert("observation_type"@.len() == 16 && "screen_size"@.len() == 11);
    assert("observation"@.len() == 11 && "accessibility_tree"@.len() == 18);
    assert("a11y_tree"@.len() == 9 && "terminal"@.len() == 8);
    assert(d1.field("tools"@) == d2.field("tools"@));
    assert(d1.field("bootstrap"@) == d2.field("bootstrap"@));
    assert(d1.field("messages"@) == d2.field("messages"@));
    assert(d1.field("exit_code"@) == d2.field("exit_code"@));
    assert(d1.field("context_id"@) == d2.field("context_id"@));
    assert(d1.field("benchmark_context"@) == d2.field("benchmark_context"@));
    assert(d1.field("env_config"@) == d2.field("env_config"@));
    assert(d1.field("action_space"@) == d2.field("action_space"@));
    assert(d1.field("observation_type"@) == d2.field("observation_type"@));
    assert(d1.field("screen_size"@) == d2.field("screen_size"@));
    assert(d1.field("observation"@) == d2.field("observation"@));
    assert(d1.field("accessibility_tree"@) == d2.field("accessibility_tree"@));
    assert(d1.field("a11y_tree"@) == d2.field("a11y_tree"@));
    assert(d1.field("terminal"@) == d2.field("terminal"@));
}

/// How well the data of a part fits tool use; nothing where it has none.
spec fn part_tooluse_fit(p: JsonView) -> nat {
    match p.field("data"@) {
        Some(data) => tooluse_data_fit(data),
        None => 0,
    }
}

proof fn lemma_rewording_keeps_features(p1: JsonView, p2: JsonView, f: Feature)
    requires
        reworded(p1, p2),
    ensures
        shows(p1, f) == shows(p2, f),
        part_tooluse_fit(p1) == part_tooluse_fit(p2),
{
    lemma_part_members_differ();
    if reworded_at(p1, p2, "text"@) {
        assert(p1.field("kind"@) == p2.field("kind"@));
        assert(p1.field("type"@) == p2.field("type"@));
        assert(p1.field("file"@) == p2.field("file"@));
        assert(p1.field("data"@) == p2.field("data"@));
        assert(p1.has_text("text"@) && p2.has_text("text"@));
    } else {
        let d1 = p1.field("data"@)->0;
        let d2 = choose|d: JsonView| #[trigger]
            reworded_at(d1, d, "query"@) && p2 == JsonView::Object(
                p1->Object_0.insert("data"@, d),
            );
        lemma_query_is_apart(d1, d2);
        assert(p1.field("kind"@) == p2.field("kind"@));
        assert(p1.field("type"@) == p2.field("type"@));
        assert(p1.field("file"@) == p2.field("file"@));
        assert(p1.field("text"@) == p2.field("text"@));
        assert(p2.field("data"@) == Some(d2));
    }
}

/// The words of a text or of a query make no difference to any score: probes look at the
/// shape of a request, not at what is asked.
pub proof fn law_words_do_not_count(parts1: Seq<JsonView>, parts2: Seq<JsonView>)
    requires
        parts1.len() == parts2.len(),
        forall|i: int|
            0 <= i < parts1.len() ==> unwrapped(#[trigger] parts1[i]) == unwrapped(
                #[trigger] parts2[i],
            ) || reworded(unwrapped(parts1[i]), unwrapped(parts2[i])),
    ensures
        part_fits(parts1) == part_fits(parts2),
{
    assert forall|f: Feature| #[trigger] some_part(parts1, f) == some_part(parts2, f) by {
        assert forall|i: int| 0 <= i < parts1.len() implies shows(unwrapped(#[trigger] parts1[i]), f)
            == shows(unwrapped(#[trigger] parts2[i]), f) by {
            if reworded(unwrapped(parts1[i]), unwrapped(parts2[i])) {
                lemma_rewording_keeps_features(unwrapped(parts1[i]), unwrapped(parts2[i]), f);
            }
        }
        if some_part(parts1, f) {
            let i = choose|i: int| 0 <= i < parts1.len() && shows(
                unwrapped(#[trigger] parts1[i]),
                f,
            );
            assert(shows(unwrapped(parts2[i]), f));
        }
        if some_part(parts2, f) {
            let i = choose|i: int| 0 <= i < parts2.len() && shows(
                unwrapped(#[trigger] parts2[i]),
                f,
            );
            assert(shows(unwrapped(parts1[i]), f));
        }
    }
    if parts1.len() > 0 {
        if reworded(unwrapped(parts1[0]), unwrapped(parts2[0])) {
            lemma_rewording_keeps_features(
                unwrapped(parts1[0]),
                unwrapped(parts2[0]),
                Feature::Question,
            );
        }
        assert(part_tooluse_fit(unwrapped(parts1[0])) == part_tooluse_fit(unwrapped(parts2[0])));
    }
    assert(part_fits(parts1) =~= part_fits(parts2));
}

/// Desktop control is never taken for a question about an image: where the GUI agent
/// scores at all, question answering does not.
pub proof fn law_questions_yield_to_gui(parts: Seq<JsonView>)
    ensures
        gui_agent_fit(parts) > 0 ==> vision_qa_fit(parts) == 0,
{
    if gui_agent_fit(parts) > 0 {
        let f = if some_part(parts, Feature::GuiEnvConfig) {
            Feature::GuiEnvConfig
        } else {
            Feature::DesktopObservation
        };
        let i = choose|i: int| 0 <= i < parts.len() && shows(unwrapped(#[trigger] parts[i]), f);
        assert(shows(unwrapped(parts[i]), Feature::GuiFingerprint));
        assert(some_part(parts, Feature::GuiFingerprint));
    }
}

/// A source archive or a patch is never taken for a document to be asked about.
pub proof fn law_questions_yield_to_archives(parts: Seq<JsonView>)
    requires
        some_part(parts, Feature::Archive) || some_part(parts, Feature::Patch),
    ensures
        vision_qa_fit(parts) == 0,
        vuln_repro_fit(parts) >= 75,
{
}

/// Where vulnerability reproduction scores at all, it scores higher than question
/// answering.
pub proof fn law_reproduction_beats_questions(parts: Seq<JsonView>)
    ensures
        vuln_repro_fit(parts) > 0 ==> vuln_repro_fit(parts) > vision_qa_fit(parts),
{
}

/// A message without a file is never taken for a question about a document.
pub proof fn law_questions_need_a_file(parts: Seq<JsonView>)
    requires
        forall|i: int| 0 <= i < parts.len() ==> !of_kind(unwrapped(#[trigger] parts[i]), "file"@),
    ensures
        vision_qa_fit(parts) == 0,
{
}

proof fn lemma_claimed_part(parts: Seq<JsonView>, i: int)
    requires
        0 <= i < parts.len(),
        shows(unwrapped(parts[i]), Feature::Claimed),
    ensures
        text_codegen_fit(parts) == 0,
{
    assert(some_part(parts, Feature::Claimed));
}

/// Code generation is the last resort: it does not score beside vulnerability
/// reproduction, question answering or the GUI agent, nor beside tool use where the first
/// part is a data part, and is outscored by tool use wherever a session starts or goes on.
pub proof fn law_codegen_is_the_last_resort(parts: Seq<JsonView>)
    ensures
        vuln_repro_fit(parts) > 0 ==> text_codegen_fit(parts) == 0,
        vision_qa_fit(parts) > 0 ==> text_codegen_fit(parts) == 0,
        gui_agent_fit(parts) > 0 ==> text_codegen_fit(parts) == 0,
        policy_tooluse_fit(parts) > 0 && of_kind_or_type(unwrapped(parts[0]), "data"@)
            ==> text_codegen_fit(parts) == 0,
        policy_tooluse_fit(parts) >= 65 ==> text_codegen_fit(parts) < policy_tooluse_fit(parts),
{
    if vuln_repro_fit(parts) > 0 {
        let f = if some_part(parts, Feature::ExitCode) {
            Feature::ExitCode
        } else if some_part(parts, Feature::Archive) {
            Feature::Archive
        } else {
            Feature::Patch
        };
        let i = choose|i: int| 0 <= i < parts.len() && shows(unwrapped(#[trigger] parts[i]), f);
        lemma_claimed_part(parts, i);
    }
    if vision_qa_fit(parts) > 0 {
        let f = if some_part(parts, Feature::Image) {
            Feature::Image
        } else {
            Feature::Document
        };
        let i = choose|i: int| 0 <= i < parts.len() && shows(unwrapped(#[trigger] parts[i]), f);
        lemma_claimed_part(parts, i);
    }
    if gui_agent_fit(parts) > 0 {
        let f = if some_part(parts, Feature::GuiEnvConfig) {
            Feature::GuiEnvConfig
        } else {
            Feature::DesktopObservation
        };
        let i = choose|i: int| 0 <= i < parts.len() && shows(unwrapped(#[trigger] parts[i]), f);
        lemma_claimed_part(parts, i);
    }
    if policy_tooluse_fit(parts) > 0 && of_kind_or_type(unwrapped(parts[0]), "data"@) {
        lemma_claimed_part(parts, 0);
    }
}

/// Data that belongs to desktop control, in any part, leaves nothing to code generation.
pub proof fn law_codegen_yields_to_gui_data(parts: Seq<JsonView>)
    requires
        some_part(parts, Feature::GuiFingerprint),
    ensures
        text_codegen_fit(parts) == 0,
{
    let i = choose|i: int|
        0 <= i < parts.len() && shows(
            unwrapped(#[trigger] parts[i]),
            Feature::GuiFingerprint,
        );
    lemma_claimed_part(parts, i);
}

/// Tools and context alone are not tool use: where no session starts or goes on, the
/// score stays below the threshold.
pub proof fn law_tooluse_needs_a_session(data: JsonView)
    requires
        !session_starts(data),
        !session_goes_on(data),
    ensures
        tooluse_data_fit(data) < ROUTE_CONFIDENCE_THRESHOLD,
{
}

/// A request goes to code generation only where every other capability scores lower.
pub proof fn law_codegen_wins_alone(parts: Seq<JsonView>, i: int)
    requires
        0 <= i < 5,
        i != 2,
        decision(part_fits(parts)) matches Decision::Route(best) && best.probe == 2,
    ensures
        part_fits(parts)[i] < text_codegen_fit(parts),
        text_codegen_fit(parts) == 45,
{
    let scores = part_fits(parts);
    lemma_first_best(scores, 5);
    assert(scores[2] == text_codegen_fit(parts));
    assert(scores[i] <= scores[2]);
    law_codegen_is_the_last_resort(parts);
}

/// More parts never make a message fit vulnerability reproduction less.
pub proof fn law_reproduction_grows(parts: Seq<JsonView>, more: Seq<JsonView>)
    ensures
        vuln_repro_fit(parts + more) >= vuln_repro_fit(parts),
{
    assert forall|f: Feature| some_part(parts, f) implies #[trigger] some_part(parts + more, f) by {
        let i = choose|i: int| 0 <= i < parts.len() && shows(unwrapped(#[trigger] parts[i]), f);
        assert((parts + more)[i] == parts[i]);
    }
}

/// More parts never make a message fit the GUI agent less: beside the environment contract
/// everything else only reinforces.
pub proof fn law_gui_grows(parts: Seq<JsonView>, more: Seq<JsonView>)
    ensures
        gui_agent_fit(parts + more) >= gui_agent_fit(parts),
        some_part(parts, Feature::GuiEnvConfig) ==> gui_agent_fit(parts + more) >= 90,
{
    assert forall|f: Feature| some_part(parts, f) implies #[trigger] some_part(parts + more, f) by {
        let i = choose|i: int| 0 <= i < parts.len() && shows(unwrapped(#[trigger] parts[i]), f);
        assert((parts + more)[i] == parts[i]);
    }
}

/// What a tool is called makes no difference: any name in the place of its own leaves it
/// one that follows the function-calling schema, or one that does not.
pub proof fn law_tool_names_do_not_count(
    tool: Map<Seq<char>, JsonView>,
    function: Map<Seq<char>, JsonView>,
    name: JsonView,
)
    requires
        tool.contains_key("function"@),
        tool["function"@] == JsonView::Object(function),
        function.contains_key("name"@),
    ensures
        function_schema(
            JsonView::Object(
                tool.insert("function"@, JsonView::Object(function.insert("name"@, name))),
            ),
        ) == function_schema(JsonView::Object(tool)),
{
    reveal_strlit("name");
    reveal_strlit("parameters");
    assert("name"@.len() != "parameters"@.len());
}

/// The parts of a message are found where a request holds them.
pub proof fn law_parts_are_found(
    req: Map<Seq<char>, JsonView>,
    params: Map<Seq<char>, JsonView>,
    message: Map<Seq<char>, JsonView>,
    parts: Seq<JsonView>,
)
    requires
        req.contains_key("params"@) && req["params"@] == JsonView::Object(params),
        params.contains_key("message"@) && params["message"@] == JsonView::Object(message),
        message.contains_key("parts"@) && message["parts"@] == JsonView::Array(parts),
    ensures
        message_parts(JsonView::Object(req)) == Some(parts),
        request_fits(JsonView::Object(req)) == part_fits(parts),
{
}

/// A request without parts fits nothing.
pub proof fn law_no_parts_no_fit(req: JsonView, i: int)
    requires
        0 <= i < 5,
        req.nested("params"@, "message"@) is None || req.nested(
            "params"@,
            "message"@,
        )->0.array_field("parts"@) is None,
    ensures
        message_parts(req) is None,
        request_fits(req)[i] == 0,
{
}

/// The `root` of a part stands for the part; a part without one stands for itself.
pub proof fn law_root_is_taken_off(part: Map<Seq<char>, JsonView>)
    ensures
        part.contains_key("root"@) ==> unwrapped(JsonView::Object(part)) == part["root"@],
        !part.contains_key("root"@) ==> unwrapped(JsonView::Object(part)) == JsonView::Object(part),
{
}

/// A message shows what its parts show, each part on its own.
pub proof fn law_parts_show_on_their_own(parts: Seq<JsonView>, p: JsonView, f: Feature)
    ensures
        !some_part(Seq::empty(), f),
        some_part(parts.push(p), f) <==> some_part(parts, f) || shows(unwrapped(p), f),
{
    let longer = parts.push(p);
    if some_part(parts, f) {
        let i = choose|i: int| 0 <= i < parts.len() && shows(unwrapped(#[trigger] parts[i]), f);
        assert(longer[i] == parts[i]);
    }
    if shows(unwrapped(p), f) {
        assert(longer[parts.len() as int] == p);
    }
    if some_part(longer, f) {
        let i = choose|i: int| 0 <= i < longer.len() && shows(unwrapped(#[trigger] longer[i]), f);
        if i < parts.len() {
            assert(parts[i] == longer[i]);
        }
    }
}

proof fn lemma_kinds_differ()
    ensures
        "text"@ != "data"@ && "text"@ != "file"@ && "data"@ != "file"@,
{
    reveal_strlit("text");
    reveal_strlit("file");
    reveal_strlit("data");
    assert("text"@[0] == 't' && "file"@[0] == 'f' && "data"@[0] == 'd');
}

/// A file shows what its name, in lower case, ends with, and what its media type says; it
/// is never a prompt, a question or data.
pub proof fn law_what_files_show(p: JsonView, file: JsonView, name: Seq<char>, mime: Seq<char>)
    requires
        p.str_field("kind"@) == Some("file"@),
        p.field("file"@) == Some(file),
        file.str_field("name"@) matches Some(n) ==> name == lowered(n),
        file.str_field("name"@) is None ==> name.len() == 0,
        file.str_field("mimeType"@) matches Some(m) ==> mime == lowered(m),
        file.str_field("mimeType"@) is None ==> mime.len() == 0,
    ensures
        shows(p, Feature::Archive) <==> ends(name, ".tar.gz"@) || ends(name, ".tgz"@) || ends(
            name,
            ".tar"@,
        ),
        shows(p, Feature::Patch) <==> ends(name, ".diff"@) || ends(name, ".patch"@),
        shows(p, Feature::Screenshot) <==> begins(mime, "image/"@) || ends(name, ".png"@) || ends(
            name,
            ".jpg"@,
        ) || ends(name, ".jpeg"@),
        shows(p, Feature::Image) <==> begins(mime, "image/"@) || ends(name, ".png"@) || ends(
            name,
            ".jpg"@,
        ) || ends(name, ".jpeg"@) || ends(name, ".webp"@),
        shows(p, Feature::Document) <==> mime == "application/pdf"@ || begins(mime, "text/"@)
            || ends(name, ".pdf"@) || ends(name, ".txt"@) || ends(name, ".csv"@) || ends(
            name,
            ".md"@,
        ) || ends(name, ".json"@) || holds(name, "bounding_box"@),
        shows(p, Feature::Claimed),
        !shows(p, Feature::ExitCode) && !shows(p, Feature::Question) && !shows(p, Feature::Prompt),
        !shows(p, Feature::GuiFingerprint) && !shows(p, Feature::GuiEnvConfig) && !shows(
            p,
            Feature::DesktopObservation,
        ),
{
    lemma_kinds_differ();
    if file.str_field("name"@) is None {
        assert(name =~= Seq::empty());
    }
    if file.str_field("mimeType"@) is None {
        assert(mime =~= Seq::empty());
    }
}

/// A text shows a question and a prompt where it has words, and nothing else.
pub proof fn law_what_texts_show(p: JsonView, f: Feature)
    requires
        p.str_field("kind"@) == Some("text"@),
    ensures
        shows(p, f) <==> (f is Question || f is Prompt) && (p.field("text"@) matches Some(
            JsonView::Str(t),
        ) && t.len() > 0),
{
    lemma_kinds_differ();
}

/// Data shows what its members say, and is never a file or a question.
pub proof fn law_what_data_shows(p: JsonView, data: JsonView)
    requires
        p.str_field("kind"@) == Some("data"@),
        p.field("data"@) == Some(data),
    ensures
        shows(p, Feature::ExitCode) <==> data.has("exit_code"@),
        shows(p, Feature::DesktopObservation) <==> data.has("accessibility_tree"@) || data.has(
            "a11y_tree"@,
        ) || data.has("terminal"@),
        shows(p, Feature::GuiFingerprint) <==> data.has("action_space"@) || data.nested(
            "env_config"@,
            "action_space"@,
        ) is Some || data.has("accessibility_tree"@) || data.has("a11y_tree"@) || data.has(
            "terminal"@,
        ),
        shows(p, Feature::GuiEnvConfig) <==> (data.has("action_space"@) && (data.has(
            "observation_type"@,
        ) || data.has("screen_size"@) || data.has("observation"@))) || (data.nested(
            "env_config"@,
            "action_space"@,
        ) is Some && (data.nested("env_config"@, "observation_type"@) is Some || data.nested(
            "env_config"@,
            "screen_size"@,
        ) is Some || data.nested("env_config"@, "observation"@) is Some)),
        shows(p, Feature::Prompt) <==> (data.field("query"@) matches Some(JsonView::Str(q))
            && q.len() > 0),
        shows(p, Feature::Claimed) <==> data.has("bootstrap"@) || data.has("messages"@) || data.has(
            "tools"@,
        ) || data.has("exit_code"@) || data.has("context_id"@) || data.has("action_space"@)
            || data.nested("env_config"@, "action_space"@) is Some || data.has(
            "accessibility_tree"@,
        ) || data.has("a11y_tree"@) || data.has("terminal"@) || (data.field(
            "benchmark_context"@,
        ) matches Some(JsonView::Array(c)) && c.len() > 0),
        !shows(p, Feature::Archive) && !shows(p, Feature::Patch) && !shows(p, Feature::Screenshot),
        !shows(p, Feature::Image) && !shows(p, Feature::Document) && !shows(p, Feature::Question),
{
    lemma_kinds_differ();
}

/// A part of no kind that is known shows nothing; where it has no kind at all, its type
/// still makes it a prompt or a claimed part.
pub proof fn law_what_other_parts_show(p: JsonView, f: Feature)
    requires
        p.str_field("kind"@) != Some("text"@),
        p.str_field("kind"@) != Some("file"@),
        p.str_field("kind"@) != Some("data"@),
    ensures
        p.has("kind"@) ==> !shows(p, f),
        !(f is Prompt || f is Claimed) ==> !shows(p, f),
        !p.has("kind"@) && p.str_field("type"@) == Some("file"@) ==> shows(p, Feature::Claimed)
            && !shows(p, Feature::Prompt),
        !p.has("kind"@) && p.str_field("type"@) == Some("text"@) ==> !shows(p, Feature::Claimed) && (
        shows(p, Feature::Prompt) <==> (p.field("text"@) matches Some(JsonView::Str(t))
            && t.len() > 0)),
        !p.has("kind"@) && p.str_field("type"@) == Some("data"@) ==> (shows(p, Feature::Prompt)
            <==> (p.nested("data"@, "query"@) matches Some(JsonView::Str(q)) && q.len() > 0)),
        !p.has("kind"@) && p.str_field("type"@) == Some("data"@) ==> (p.field("data"@) matches Some(
            data,
        ) ==> (shows(p, Feature::Claimed) <==> data.has("bootstrap"@) || data.has("messages"@)
            || data.has("tools"@) || data.has("exit_code"@) || data.has("context_id"@) || data.has(
            "action_space"@,
        ) || data.nested("env_config"@, "action_space"@) is Some || data.has("accessibility_tree"@)
            || data.has("a11y_tree"@) || data.has("terminal"@) || (data.field(
            "benchmark_context"@,
        ) matches Some(JsonView::Array(c)) && c.len() > 0))),
        !p.has("kind"@) && p.str_field("type"@) == Some("data"@) && p.field("data"@) is None
            ==> !shows(p, f),
        !p.has("kind"@) && p.str_field("type"@) != Some("text"@) && p.str_field("type"@) != Some(
            "file"@,
        ) && p.str_field("type"@) != Some("data"@) ==> !shows(p, f),
{
    lemma_kinds_differ();
}

/// A question about an image scores 90 whatever else comes with it, and an image alone 60;
/// a document takes the place of an image at 75 and 40. Only archives, patches and desktop
/// control are left to others, and without an image or a document there is nothing to ask
/// about.
pub proof fn law_vision_scores(parts: Seq<JsonView>)
    ensures
        ({
            let left = some_part(parts, Feature::Archive) || some_part(parts, Feature::Patch)
                || some_part(parts, Feature::GuiFingerprint);
            let image = some_part(parts, Feature::Image);
            let document = some_part(parts, Feature::Document);
            let question = some_part(parts, Feature::Question);
            &&& !left && image && question ==> vision_qa_fit(parts) == 90
            &&& !left && image && !question ==> vision_qa_fit(parts) == 60
            &&& !left && !image && document && question ==> vision_qa_fit(parts) == 75
            &&& !left && !image && document && !question ==> vision_qa_fit(parts) == 40
            &&& left || (!image && !document) ==> vision_qa_fit(parts) == 0
        }),
{
}

/// More parts never make a message fit question answering less, as long as none of them is
/// an archive, a patch or desktop control.
pub proof fn law_vision_grows(parts: Seq<JsonView>, more: Seq<JsonView>)
    requires
        !some_part(more, Feature::Archive),
        !some_part(more, Feature::Patch),
        !some_part(more, Feature::GuiFingerprint),
    ensures
        vision_qa_fit(parts + more) >= vision_qa_fit(parts),
{
    let all = parts + more;
    assert forall|f: Feature| some_part(parts, f) implies #[trigger] some_part(all, f) by {
        let i = choose|i: int| 0 <= i < parts.len() && shows(unwrapped(#[trigger] parts[i]), f);
        assert(all[i] == parts[i]);
    }
    assert forall|f: Feature| #[trigger] some_part(all, f) implies some_part(parts, f) || some_part(
        more,
        f,
    ) by {
        let i = choose|i: int| 0 <= i < all.len() && shows(unwrapped(#[trigger] all[i]), f);
        if i < parts.len() {
            assert(parts[i] == all[i]);
        } else {
            assert(more[i - parts.len()] == all[i]);
        }
    }
}

/// The exit code of a run scores 95, a source archive 85 and a patch 75, whichever is the
/// most; nothing else counts.
pub proof fn law_reproduction_scores(parts: Seq<JsonView>)
    ensures
        some_part(parts, Feature::ExitCode) ==> vuln_repro_fit(parts) == 95,
        some_part(parts, Feature::Archive) && !some_part(parts, Feature::ExitCode)
            ==> vuln_repro_fit(parts) == 85,
        some_part(parts, Feature::Patch) && !some_part(parts, Feature::Archive) && !some_part(
            parts,
            Feature::ExitCode,
        ) ==> vuln_repro_fit(parts) == 75,
        vuln_repro_fit(parts) > 0 <==> some_part(parts, Feature::ExitCode) || some_part(
            parts,
            Feature::Archive,
        ) || some_part(parts, Feature::Patch),
{
}

/// An environment contract scores 90, and 97 with a screenshot or an observation; without a
/// contract it takes both, for 75.
pub proof fn law_gui_scores(parts: Seq<JsonView>)
    ensures
        ({
            let contract = some_part(parts, Feature::GuiEnvConfig);
            let shot = some_part(parts, Feature::Screenshot);
            let observation = some_part(parts, Feature::DesktopObservation);
            &&& contract && (shot || observation) ==> gui_agent_fit(parts) == 97
            &&& contract && !shot && !observation ==> gui_agent_fit(parts) == 90
            &&& !contract && shot && observation ==> gui_agent_fit(parts) == 75
            &&& !contract && !(shot && observation) ==> gui_agent_fit(parts) == 0
        }),
{
}

/// A prompt scores 45 where no part is claimed, and nothing else does.
pub proof fn law_codegen_scores(parts: Seq<JsonView>)
    ensures
        text_codegen_fit(parts) == 45 <==> some_part(parts, Feature::Prompt) && !some_part(
            parts,
            Feature::Claimed,
        ),
        text_codegen_fit(parts) == 45 || text_codegen_fit(parts) == 0,
{
}

/// Tool use looks at the data of the first part and at nothing else.
pub proof fn law_tooluse_reads_the_first_part(parts: Seq<JsonView>, p: JsonView)
    ensures
        policy_tooluse_fit(Seq::empty()) == 0,
        unwrapped(p).field("data"@) is None ==> policy_tooluse_fit(seq![p] + parts) == 0,
        unwrapped(p).field("data"@) matches Some(data) ==> policy_tooluse_fit(seq![p] + parts)
            == tooluse_data_fit(data),
{
    assert((seq![p] + parts)[0] == p);
}

/// A session that starts scores 70 and one that goes on 65; tools add 25 and context 10, up
/// to certainty. Tools or context alone count for what they add, and both together stay
/// just below the threshold.
pub proof fn law_tooluse_scores(data: JsonView, tools: bool, context: bool)
    requires
        tools <==> (data.field("tools"@) matches Some(JsonView::Array(list)) && exists|i: int|
            0 <= i < list.len() && (#[trigger] list[i]).nested("function"@, "name"@) is Some
                && list[i].nested("function"@, "parameters"@) is Some),
        context <==> (data.field("benchmark_context"@) matches Some(JsonView::Array(list))
            && list.len() > 0),
    ensures
        ({
            let starts = data.field("bootstrap"@) == Some(JsonView::Bool(true));
            let goes_on = (data.field("context_id"@) matches Some(JsonView::Str(id)) && id.len()
                > 0) && (data.field("messages"@) matches Some(JsonView::Array(list)) && list.len()
                > 0);
            let fit = tooluse_data_fit(data);
            &&& starts && !tools && !context ==> fit == 70
            &&& starts && !tools && context ==> fit == 80
            &&& starts && tools && !context ==> fit == 95
            &&& starts && tools && context ==> fit == 100
            &&& !starts && goes_on && !tools && !context ==> fit == 65
            &&& !starts && goes_on && !tools && context ==> fit == 75
            &&& !starts && goes_on && tools && !context ==> fit == 90
            &&& !starts && goes_on && tools && context ==> fit == 100
            &&& !starts && !goes_on && !tools && !context ==> fit == 0
            &&& !starts && !goes_on && !tools && context ==> fit == 10
            &&& !starts && !goes_on && tools && !context ==> fit == 25
            &&& !starts && !goes_on && tools && context ==> fit == 34 && fit + 1
                == ROUTE_CONFIDENCE_THRESHOLD
        }),
{
    if tools {
        let list = data.field("tools"@)->0->Array_0;
        let i = choose|i: int|
            0 <= i < list.len() && (#[trigger] list[i]).nested("function"@, "name"@) is Some
                && list[i].nested("function"@, "parameters"@) is Some;
        assert(function_schema(data.array_field("tools"@)->0[i]));
        assert(tools_match(data));
    }
    if tools_match(data) {
        let list = data.field("tools"@)->0->Array_0;
        let i = choose|i: int| 0 <= i < list.len() && function_schema(#[trigger] list[i]);
        assert(list[i].nested("function"@, "name"@) is Some);
    }
}

/// A request that some probe is sure enough of is sent to a specialist, and not refused.
pub proof fn law_sure_requests_are_sent<P: CapabilityProbe>(
    probes: Seq<P>,
    req: JsonView,
    body: Seq<u8>,
    i: int,
)
    requires
        probes.len() <= usize::MAX,
        0 <= i < probes.len(),
        probes[i].fit(req) >= ROUTE_CONFIDENCE_THRESHOLD,
    ensures
        routed(probes, req, body) is Forward,
        json_parsed(body) == Parsed::Document(req) ==> handled(probes, body) is Forward,
{
    let scores = fits(probes, req);
    assert forall|k: int| 0 <= k < scores.len() implies #[trigger] scores[k] <= 100 by {
        probes[k].fit_is_bounded(req);
    }
    law_best_probe_wins(scores);
    assert(scores[i] == probes[i].fit(req));
}

/// A file without content is still a file, and data without content is nothing.
pub proof fn law_what_hollow_parts_show(p: JsonView, f: Feature)
    ensures
        p.str_field("kind"@) == Some("file"@) && p.field("file"@) is None ==> (shows(p, f)
            <==> f is Claimed),
        p.str_field("kind"@) == Some("data"@) && p.field("data"@) is None ==> !shows(p, f),
{
    lemma_kinds_differ();
    reveal_strlit(".tar.gz");
    reveal_strlit(".tgz");
    reveal_strlit(".tar");
    reveal_strlit(".diff");
    reveal_strlit(".patch");
    reveal_strlit("image/");
    reveal_strlit(".png");
    reveal_strlit(".jpg");
    reveal_strlit(".jpeg");
    reveal_strlit(".webp");
    reveal_strlit("application/pdf");
    reveal_strlit("text/");
    reveal_strlit(".pdf");
    reveal_strlit(".txt");
    reveal_strlit(".csv");
    reveal_strlit(".md");
    reveal_strlit(".json");
    reveal_strlit("bounding_box");
    assert("application/pdf"@.len() == 15);
}

} // verus!

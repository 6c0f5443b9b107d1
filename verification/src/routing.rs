//! The router: scores every probe, takes the best one that is good enough, and
//! refuses to guess otherwise.

use vstd::prelude::*;
use vstd::string::*;

use crate::forward::{error_json, error_reply, forward, forwarded, ForwardRequest, ForwardView};
use crate::http::{HttpReply, ReplyView};
use crate::json::{Json, JsonView};
use crate::probe::{CapabilityProbe, ROUTE_CONFIDENCE_THRESHOLD};
use crate::text::{
    all_digits, decimal, decimal_text, digit_char, digits_value, law_digits_are_read_from_the_left,
    law_numerals_read_back,
};
use crate::wire::{json_from_bytes, json_parsed, Parsed};

verus! {

/// What the router serves with.
pub struct AppState<P> {
    pub probes: Vec<P>,
    pub agent_url: String,
}

/// The fit of each probe, in the order in which the probes are registered.
pub open spec fn fits<P: CapabilityProbe>(probes: Seq<P>, req: JsonView) -> Seq<nat> {
    Seq::new(probes.len(), |i: int| probes[i].fit(req))
}

/// A probe, by its place among the registered ones, and its score.
#[derive(Debug, Clone, Copy, PartialEq, Eq, Structural)]
pub struct Scored {
    pub score: u32,
    pub probe: usize,
}

/// Whether `a` ranks before `b`: by its score or, where the scores are equal, by
/// being registered earlier.
pub open spec fn outranks(a: Scored, b: Scored) -> bool {
    a.score > b.score || (a.score == b.score && a.probe < b.probe)
}

/// Whether `r` ranks all of the first `n` probes, best first.
pub open spec fn ranks(r: Seq<Scored>, scores: Seq<nat>, n: int) -> bool {
    &&& r.len() == n
    &&& forall|i: int|
        0 <= i < r.len() ==> (#[trigger] r[i]).probe < n && r[i].score == scores[r[i].probe as int]
    &&& forall|i: int, j: int| 0 <= i < j < r.len() ==> outranks(#[trigger] r[i], #[trigger] r[j])
}

/// Scores every probe and ranks them, best first; of equal ones the one registered
/// earlier comes first.
pub fn rank<P: CapabilityProbe>(probes: &Vec<P>, req: &Json) -> (r: Vec<Scored>)
    ensures
        ranks(r@, fits(probes@, req@), probes@.len() as int),
{
    let mut out: Vec<Scored> = Vec::new();
    let ghost scores = fits(probes@, req@);
    for i in 0..probes.len()
        invariant
            scores == fits(probes@, req@),
            ranks(out@, scores, i as int),
    {
        let next: Scored = Scored { score: probes[i].score(req), probe: i };
        let mut at: usize = out.len();
        while at > 0 && out[at - 1].score < next.score
            invariant
                at <= out.len(),
                forall|k: int| at <= k < out.len() ==> (#[trigger] out[k]).score < next.score,
            decreases at,
        {
            at -= 1;
        }
        let ghost before = out@;
        out.insert(at, next);
        proof {
            assert forall|k: int| 0 <= k < at implies outranks(#[trigger] before[k], next) by {
                if k < at - 1 {
                    assert(outranks(before[k], before[at - 1]));
                }
            }
            assert forall|a: int, b: int| 0 <= a < b < out@.len() implies outranks(
                #[trigger] out@[a],
                #[trigger] out@[b],
            ) by {
                if b < at {
                    assert(outranks(before[a], before[b]));
                } else if b == at {
                    assert(outranks(before[a], next));
                } else if a < at {
                    assert(outranks(before[a], before[b - 1]));
                } else if a > at {
                    assert(outranks(before[a - 1], before[b - 1]));
                }
            }
        }
    }
    out
}

/// The place of the best of the first `n` scores, the earliest of equal ones.
pub open spec fn first_best(scores: Seq<nat>, n: int) -> int
    decreases n,
{
    if n <= 1 {
        0
    } else {
        let b = first_best(scores, n - 1);
        if scores[n - 1] > scores[b] {
            n - 1
        } else {
            b
        }
    }
}

/// No score is better than the one at `first_best`, and none before it is as good.
pub proof fn lemma_first_best(scores: Seq<nat>, n: int)
    requires
        1 <= n <= scores.len(),
    ensures
        0 <= first_best(scores, n) < n,
        forall|i: int| 0 <= i < n ==> #[trigger] scores[i] <= scores[first_best(scores, n)],
        forall|i: int|
            0 <= i < first_best(scores, n) ==> #[trigger] scores[i] < scores[first_best(scores, n)],
    decreases n,
{
    if n > 1 {
        lemma_first_best(scores, n - 1);
    }
}

/// Where a request goes.
#[derive(Debug, Clone, Copy, PartialEq, Eq, Structural)]
pub enum Decision {
    /// No probe is registered.
    NoProbes,
    /// No probe is sure enough; this is the best score.
    Unsure(u32),
    /// To the specialist of this probe.
    Route(Scored),
}

/// Where a request with these scores goes: to the best probe, if it reaches the
/// threshold.
pub open spec fn decision(scores: Seq<nat>) -> Decision {
    if scores.len() == 0 {
        Decision::NoProbes
    } else {
        let b = first_best(scores, scores.len() as int);
        if scores[b] < ROUTE_CONFIDENCE_THRESHOLD {
            Decision::Unsure(scores[b] as u32)
        } else {
            Decision::Route(Scored { score: scores[b] as u32, probe: b as usize })
        }
    }
}

/// A ranking of every probe has each of them somewhere.
proof fn lemma_ranking_complete(r: Seq<Scored>, scores: Seq<nat>, p: int)
    requires
        ranks(r, scores, r.len() as int),
        0 <= p < r.len(),
    ensures
        exists|i: int| 0 <= i < r.len() && (#[trigger] r[i]).probe == p,
{
    let places: Seq<int> = Seq::new(r.len(), |i: int| r[i].probe as int);
    assert(places.no_duplicates()) by {
        assert forall|i: int, j: int| 0 <= i < j < r.len() implies places[i] != places[j] by {
            assert(outranks(r[i], r[j]));
        }
    }
    let all = vstd::set_lib::set_int_range(0, r.len() as int);
    vstd::set_lib::lemma_int_range(0, r.len() as int);
    places.unique_seq_to_set();
    assert(places.to_set().subset_of(all)) by {
        assert forall|x: int| places.to_set().contains(x) implies all.contains(x) by {
            let i = choose|i: int| 0 <= i < places.len() && places[i] == x;
            assert(r[i].probe < r.len());
        }
    }
    vstd::set_lib::lemma_subset_equality(places.to_set(), all);
    assert(places.to_set().contains(p));
    let i = choose|i: int| 0 <= i < places.len() && places[i] == p;
    assert(r[i].probe == p);
}

/// Where a request goes: the probes are ranked, and the first of them decides.
pub fn decide<P: CapabilityProbe>(probes: &Vec<P>, req: &Json) -> (r: Decision)
    ensures
        r == decision(fits(probes@, req@)),
{
    let ranking: Vec<Scored> = rank(probes, req);
    let ghost scores = fits(probes@, req@);
    if ranking.len() == 0 {
        return Decision::NoProbes;
    }
    let top: Scored = ranking[0];
    proof {
        let n = scores.len() as int;
        let b = first_best(scores, n);
        lemma_first_best(scores, n);
        assert(ranking@[0].probe < n);
        lemma_ranking_complete(ranking@, scores, b);
        let i = choose|i: int| 0 <= i < ranking@.len() && (#[trigger] ranking@[i]).probe == b;
        if i > 0 {
            assert(outranks(ranking@[0], ranking@[i]));
        }
        assert(top.probe == b);
    }
    if top.score < ROUTE_CONFIDENCE_THRESHOLD {
        Decision::Unsure(top.score)
    } else {
        Decision::Route(top)
    }
}

/// A score in hundredths as a decimal fraction with two places.
pub open spec fn score_text(score: nat) -> Seq<char> {
    decimal_text(score / 100) + "."@ + decimal_text(score / 10 % 10) + decimal_text(score % 10)
}

/// A score in hundredths as a decimal fraction with two places.
pub fn show_score(score: u32) -> (r: String)
    ensures
        r@ == score_text(score as nat),
{
    let mut s: String = decimal((score / 100) as u64);
    s.append(".");
    s.append(decimal((score / 10 % 10) as u64).as_str());
    s.append(decimal((score % 10) as u64).as_str());
    s
}

/// One line that gives the first `n` ranked probes with their scores.
pub open spec fn summary_text<P: CapabilityProbe>(
    probes: Seq<P>,
    ranking: Seq<Scored>,
    n: int,
) -> Seq<char>
    decreases n,
{
    if n <= 0 {
        Seq::empty()
    } else {
        let line = if n == 1 {
            Seq::empty()
        } else {
            summary_text(probes, ranking, n - 1) + " "@
        };
        line + probes[ranking[n - 1].probe as int].capability() + "="@ + score_text(
            ranking[n - 1].score as nat,
        )
    }
}

/// One line that gives the ranked probes with their scores.
pub fn scoring_summary<P: CapabilityProbe>(probes: &Vec<P>, ranking: &Vec<Scored>) -> (r: String)
    requires
        forall|i: int| 0 <= i < ranking@.len() ==> (#[trigger] ranking@[i]).probe < probes@.len(),
    ensures
        r@ == summary_text(probes@, ranking@, ranking@.len() as int),
{
    let mut line: String = String::new();
    for i in 0..ranking.len()
        invariant
            forall|k: int| 0 <= k < ranking@.len() ==> (#[trigger] ranking@[k]).probe < probes@.len(),
            line@ == summary_text(probes@, ranking@, i as int),
    {
        if i > 0 {
            line.append(" ");
        }
        let entry: Scored = ranking[i];
        line.append(probes[entry.probe].name());
        line.append("=");
        line.append(show_score(entry.score).as_str());
        assert(line@ =~= summary_text(probes@, ranking@, i + 1));
    }
    line
}

/// What the router does with a request.
pub enum RouteOutcome {
    /// It replies itself.
    Reply(HttpReply),
    /// It sends this to a specialist.
    Forward(ForwardRequest),
}

/// The content of what the router does with a request.
pub enum RouteView {
    Reply(ReplyView),
    Forward(ForwardView),
}

impl View for RouteOutcome {
    type V = RouteView;

    open spec fn view(&self) -> RouteView {
        match self {
            RouteOutcome::Reply(reply) => RouteView::Reply(reply@),
            RouteOutcome::Forward(req) => RouteView::Forward(req@),
        }
    }
}

/// Why the router refuses a request whose best score is `top`.
pub open spec fn unsure_message(top: nat) -> Seq<char> {
    "Request did not match any capability shape with sufficient confidence (top="@ + score_text(top)
        + " < "@ + score_text(ROUTE_CONFIDENCE_THRESHOLD as nat)
        + "). The router refuses to guess to avoid polluting leaderboards with misrouted submissions."@
}

/// What the router does with a request that holds the document `req`.
pub open spec fn routed<P: CapabilityProbe>(
    probes: Seq<P>,
    req: JsonView,
    body: Seq<u8>,
) -> RouteView {
    match decision(fits(probes, req)) {
        Decision::NoProbes => RouteView::Reply(error_reply(500, "No probes registered"@)),
        Decision::Unsure(top) => RouteView::Reply(error_reply(422, unsure_message(top as nat))),
        Decision::Route(best) => RouteView::Forward(
            forwarded(
                probes[best.probe as int].specialist(),
                body,
                probes[best.probe as int].capability(),
            ),
        ),
    }
}

/// What the router does with a request that holds the document `req`.
pub fn route<P: CapabilityProbe>(probes: &Vec<P>, req: &Json, body: Vec<u8>) -> (r: RouteOutcome)
    ensures
        r@ == routed(probes@, req@, body@),
{
    proof {
        if probes@.len() > 0 {
            lemma_first_best(fits(probes@, req@), probes@.len() as int);
        }
    }
    match decide(probes, req) {
        Decision::NoProbes => RouteOutcome::Reply(
            error_json(500, "No probes registered".to_owned()),
        ),
        Decision::Unsure(top) => {
            let mut msg: String =
                "Request did not match any capability shape with sufficient confidence (top=".to_owned();
            msg.append(show_score(top).as_str());
            msg.append(" < ");
            msg.append(show_score(ROUTE_CONFIDENCE_THRESHOLD).as_str());
            msg.append(
                "). The router refuses to guess to avoid polluting leaderboards with misrouted submissions.",
            );
            RouteOutcome::Reply(error_json(422, msg))
        },
        Decision::Route(best) => {
            let probe: &P = &probes[best.probe];
            RouteOutcome::Forward(forward(probe.upstream(), body, probe.name()))
        },
    }
}

/// What the router does with the bytes of a request: it reads them as JSON, replies
/// where they are none, and routes the document otherwise.
pub open spec fn handled<P: CapabilityProbe>(probes: Seq<P>, body: Seq<u8>) -> RouteView {
    match json_parsed(body) {
        Parsed::Error(e) => RouteView::Reply(error_reply(400, "Body is not valid JSON: "@ + e)),
        Parsed::Document(req) => routed(probes, req, body),
    }
}

/// What the router does with the bytes of a request.
pub fn handle_task<P: CapabilityProbe>(state: &AppState<P>, body: Vec<u8>) -> (r: RouteOutcome)
    ensures
        r@ == handled(state.probes@, body@),
{
    match json_from_bytes(body.as_slice()) {
        Err(e) => {
            let mut msg: String = "Body is not valid JSON: ".to_owned();
            msg.append(e.as_str());
            RouteOutcome::Reply(error_json(400, msg))
        },
        Ok(req) => route(&state.probes, &req, body),
    }
}

/// A score is written with two places behind the point, and its digits are the score.
pub proof fn law_scores_are_written_out(score: nat)
    ensures
        exists|whole: Seq<char>, places: Seq<char>|
            score_text(score) == #[trigger] (whole + "."@ + places) && places.len() == 2
                && all_digits(whole + places) && digits_value(whole + places) == score && whole
                == decimal_text(score / 100),
{
    let whole = decimal_text(score / 100);
    let places = decimal_text(score / 10 % 10) + decimal_text(score % 10);
    law_numerals_read_back(score / 100, score);
    law_numerals_read_back(score / 10 % 10, 10);
    law_numerals_read_back(score % 10, 10);
    assert(score_text(score) =~= whole + "."@ + places);
    assert(places.len() == 2);
    let first = whole.push(digit_char(score / 10 % 10));
    assert(whole + places =~= first.push(digit_char(score % 10)));
    law_digits_are_read_from_the_left(whole, score / 10 % 10);
    law_digits_are_read_from_the_left(first, score % 10);
    assert forall|i: int| 0 <= i < (whole + places).len() implies '0' <= #[trigger] (whole
        + places)[i] <= '9' by {
        if i < whole.len() {
            assert((whole + places)[i] == whole[i]);
        }
    }
}

/// A refusal tells the best score and the threshold that it misses.
pub proof fn law_refusals_tell_the_score(top: nat)
    ensures
        unsure_message(top)
            == "Request did not match any capability shape with sufficient confidence (top="@
            + score_text(top) + " < "@ + score_text(35)
            + "). The router refuses to guess to avoid polluting leaderboards with misrouted submissions."@,
{
}

/// Without probes, and for a body that is no JSON, the router replies itself and says so.
pub proof fn law_replies_of_the_router<P: CapabilityProbe>(
    probes: Seq<P>,
    req: JsonView,
    body: Seq<u8>,
)
    ensures
        probes.len() == 0 ==> routed(probes, req, body) == RouteView::Reply(
            error_reply(500, "No probes registered"@),
        ),
        json_parsed(body) matches Parsed::Error(e) ==> handled(probes, body) == RouteView::Reply(
            error_reply(400, "Body is not valid JSON: "@ + e),
        ),
        json_parsed(body) matches Parsed::Document(doc) ==> handled(probes, body) == routed(
            probes,
            doc,
            body,
        ),
{
}

/// The fit of each probe stands at its own place.
pub proof fn law_fits_stand_in_place<P: CapabilityProbe>(probes: Seq<P>, req: JsonView, i: int)
    requires
        0 <= i < probes.len(),
    ensures
        fits(probes, req).len() == probes.len(),
        fits(probes, req)[i] == probes[i].fit(req),
{
}

/// The line that tells a ranking names every ranked probe, in order, with its own score.
pub proof fn law_rankings_are_told<P: CapabilityProbe>(
    probes: Seq<P>,
    ranking: Seq<Scored>,
    n: int,
)
    requires
        1 <= n < ranking.len(),
    ensures
        summary_text(probes, ranking, 0) == Seq::<char>::empty(),
        summary_text(probes, ranking, 1) == probes[ranking[0].probe as int].capability() + "="@
            + score_text(ranking[0].score as nat),
        summary_text(probes, ranking, n + 1) == summary_text(probes, ranking, n) + " "@
            + probes[ranking[n].probe as int].capability() + "="@ + score_text(
            ranking[n].score as nat,
        ),
{
    assert(Seq::<char>::empty() + probes[ranking[0].probe as int].capability()
        =~= probes[ranking[0].probe as int].capability());
}

/// A ranking holds every probe, each with its own score and none twice; a better score
/// stands before a worse one, and of equal ones the probe that was registered earlier.
pub proof fn law_rankings_are_complete(r: Seq<Scored>, scores: Seq<nat>, i: int, j: int, p: int)
    requires
        ranks(r, scores, scores.len() as int),
        0 <= i < j < r.len(),
        0 <= p < scores.len(),
    ensures
        r.len() == scores.len(),
        r[i].score == scores[r[i].probe as int] && r[j].score == scores[r[j].probe as int],
        r[i].probe != r[j].probe,
        r[i].score >= r[j].score,
        r[i].score == r[j].score ==> r[i].probe < r[j].probe,
        exists|k: int| 0 <= k < r.len() && (#[trigger] r[k]).probe == p,
{
    assert(outranks(r[i], r[j]));
    lemma_ranking_complete(r, scores, p);
}

/// What the router does is told by the reply that it gives, or by what it sends.
pub proof fn law_outcomes_are_told(reply: HttpReply, sent: ForwardRequest)
    ensures
        RouteOutcome::Reply(reply)@ == RouteView::Reply(reply@),
        RouteOutcome::Forward(sent)@ == RouteView::Forward(sent@),
        sent@.url == sent.url@,
        sent@.headers == sent.headers@,
        sent@.body == sent.body@,
        sent@.timeout_secs == sent.timeout_secs,
        sent@.probe_name == sent.probe_name@,
        sent@.response_shape == sent.response_shape,
{
}

} // verus!

//! The execution engine's decisions, free of any transport.
//!
//! A caller that owns the transport drives one request at a time: it asks
//! for the prepared form of a request (placeholders substituted), performs
//! the call itself, and hands the observed status and body back.  The
//! functions here decide everything else: captured values, the assertion
//! outcome, and whether a breaking failure halts the rest of the run.  The
//! whole-run and whole-test drivers run the same decisions against
//! responses supplied up front.

use vstd::prelude::*;

use crate::assertions::{assert_failures, assert_response, outcome_of};
use crate::config::method_text;
use crate::context::{Global, RunState};
use crate::error::AlixtError;
use crate::jsonval::{json_text, key_lookup_spec, pointer_spec, JNode, JsonValue};
use crate::outcome::{JOutcome, RequestOutcome, RunData, TestData};
use crate::parse::{json_parse, parse_json};
use crate::plan::{ExecuteRequest, RunPlan, TestPlan};
use crate::text::str_to_chars;
use crate::vars::{assoc_map, substitute_spec, VarMap};

verus! {

/// What the transport observed: a status code and the raw body text.
pub struct HttpResponse {
    pub status: u16,
    pub body: String,
}

/// A request after run-time substitution, ready to send: header values
/// are substituted, header names are not.
pub struct PreparedRequest {
    pub url: String,
    pub method: crate::config::Method,
    pub headers: VarMap,
    pub body: Option<String>,
}

/// How a prepared request relates to its plan entry and the namespaces it
/// was substituted against.
pub open spec fn prepared_matches(
    p: PreparedRequest,
    req: ExecuteRequest,
    rv: Map<Seq<char>, Seq<char>>,
    ev: Map<Seq<char>, Seq<char>>,
) -> bool {
    &&& p.url@ == substitute_spec(req.url@, rv, ev)
    &&& p.method == req.method
    &&& (match req.headers {
        Some(h) => p.headers.pairs().len() == h.pairs().len() && (forall|i: int|
            0 <= i < h.pairs().len() ==> (#[trigger] p.headers.pairs()[i]).0 == h.pairs()[i].0
                && p.headers.pairs()[i].1 == substitute_spec(h.pairs()[i].1, rv, ev)),
        None => p.headers.pairs().len() == 0,
    })
    &&& (match req.body {
        Some(b) => (p.body matches Some(pb) && pb@ == substitute_spec(b@, rv, ev)),
        None => p.body is None,
    })
}

/// Substitutes the run-time namespaces into a resolved request's URL,
/// header values and body.
pub fn prepare_request(request: &ExecuteRequest, state: &RunState) -> (r: PreparedRequest)
    ensures
        prepared_matches(r, *request, state.run_variables@, state.global.env_variables@),
{
    let url = state.substitute_values_in_text(request.url.as_str());
    let mut headers = VarMap::new();
    match &request.headers {
        Some(h) => {
            let n = h.len();
            let mut i: usize = 0;
            while i < n
                invariant
                    i <= n,
                    n == h.pairs().len(),
                    headers.pairs().len() == i,
                    forall|j: int|
                        0 <= j < i ==> (#[trigger] headers.pairs()[j]).0 == h.pairs()[j].0
                            && headers.pairs()[j].1 == substitute_spec(
                            h.pairs()[j].1,
                            state.run_variables@,
                            state.global.env_variables@,
                        ),
                decreases n - i,
            {
                let key = h.key_at(i).clone();
                let value = state.substitute_values_in_text(h.val_at(i).as_str());
                headers.insert(key, value);
                i = i + 1;
            }
        },
        None => {},
    }
    let body = match &request.body {
        Some(b) => Some(state.substitute_values_in_text(b.as_str())),
        None => None,
    };
    PreparedRequest { url, method: request.method, headers, body }
}

/// The captured text of a response value: a string's own characters, any
/// other value's compact rendering.
pub open spec fn captured_text(n: JNode) -> Seq<char> {
    match n {
        JNode::Str(s) => s,
        _ => json_text(n),
    }
}

/// The value a capture pattern finds in the body: pointer addressing when
/// the pattern starts with `/`, a bare top-level key otherwise.
pub open spec fn capture_value(j: JNode, pattern: Seq<char>) -> Option<Seq<char>> {
    let found = if pattern.len() > 0 && pattern[0] == '/' {
        pointer_spec(j, pattern)
    } else {
        key_lookup_spec(j, pattern)
    };
    match found {
        Some(n) => Some(captured_text(n)),
        None => None,
    }
}

/// The namespace after the first `k` capture directives ran against the
/// body: each resolved pattern binds its variable, an unresolved pattern
/// binds nothing.
pub open spec fn applied_caps(
    pairs: Seq<(Seq<char>, Seq<char>)>,
    caps: Seq<(Seq<char>, Seq<char>)>,
    j: JNode,
    k: int,
) -> Seq<(Seq<char>, Seq<char>)>
    decreases k,
{
    if k <= 0 || k > caps.len() {
        pairs
    } else {
        let p = applied_caps(pairs, caps, j, k - 1);
        match capture_value(j, caps[k - 1].1) {
            Some(v) => p.push((caps[k - 1].0, v)),
            None => p,
        }
    }
}

/// Looks one capture pattern up in the body.
fn capture_lookup<'a>(json: &'a JsonValue, pattern: &String) -> (r: Option<&'a JsonValue>)
    ensures
        match r {
            Some(v) => (if pattern@.len() > 0 && pattern@[0] == '/' {
                pointer_spec(json@, pattern@)
            } else {
                key_lookup_spec(json@, pattern@)
            }) == Some(v@),
            None => (if pattern@.len() > 0 && pattern@[0] == '/' {
                pointer_spec(json@, pattern@)
            } else {
                key_lookup_spec(json@, pattern@)
            }) is None,
        },
{
    let pchars = str_to_chars(pattern.as_str());
    if pchars.len() > 0 && pchars[0] == '/' {
        json.pointer(pattern.as_str())
    } else {
        json.get(pattern)
    }
}

/// Runs the capture directives against a parsed body, binding each
/// resolved value into the run-local namespace.
fn apply_captures(caps: &VarMap, json: &JsonValue, vars: &mut VarMap)
    ensures
        final(vars).pairs() == applied_caps(
            old(vars).pairs(),
            caps.pairs(),
            json@,
            caps.pairs().len() as int,
        ),
{
    let n = caps.len();
    let mut i: usize = 0;
    while i < n
        invariant
            i <= n,
            n == caps.pairs().len(),
            vars.pairs() == applied_caps(old(vars).pairs(), caps.pairs(), json@, i as int),
        decreases n - i,
    {
        let pattern = caps.val_at(i);
        let variable = caps.key_at(i).clone();
        match capture_lookup(json, pattern) {
            Some(value) => {
                let text = value.capture_text();
                vars.insert(variable, text);
            },
            None => {},
        }
        i = i + 1;
    }
}

/// The parsed body: nothing for an empty text, else whatever the text
/// denotes as JSON.
pub open spec fn jn_of(body: Seq<char>) -> Option<JNode> {
    if body.len() == 0 {
        None
    } else {
        json_parse(body)
    }
}

/// The run-local namespace after one request's captures.
pub open spec fn step_pairs(
    req: ExecuteRequest,
    pairs: Seq<(Seq<char>, Seq<char>)>,
    body: Seq<char>,
) -> Seq<(Seq<char>, Seq<char>)> {
    match (req.capture, jn_of(body)) {
        (Some(c), Some(j)) => applied_caps(pairs, c.pairs(), j, c.pairs().len() as int),
        _ => pairs,
    }
}

/// How a recorded outcome relates to its request, the namespaces at the
/// time it was prepared, and the observed response.
pub open spec fn outcome_matches(
    o: RequestOutcome,
    req: ExecuteRequest,
    pairs: Seq<(Seq<char>, Seq<char>)>,
    ev: Map<Seq<char>, Seq<char>>,
    status: u16,
    body: Seq<char>,
) -> bool {
    &&& o.name == req.name
    &&& o.method@ == method_text(req.method)
    &&& o.url@ == substitute_spec(req.url@, assoc_map(pairs), ev)
    &&& o.status == Some(status)
    &&& (body.len() == 0 ==> o.response_body is None)
    &&& (body.len() > 0 ==> (o.response_body matches Some(rb) && rb@ == body))
    &&& o.breaking == (match req.assertion {
        Some(a) => a.breaking,
        None => false,
    })
    &&& o.passing@ == (match req.assertion {
        Some(a) => outcome_of(assert_failures(a, jn_of(body), Some(status))),
        None => JOutcome::Passed,
    })
}

/// Turns one observed response into the request's outcome: parses the
/// body, binds the captured values into the run-local namespace, and
/// evaluates the assertion.
pub fn evaluate_response(
    request: &ExecuteRequest,
    url: String,
    state: &mut RunState,
    status: u16,
    body_text: String,
    duration: u64,
) -> (r: RequestOutcome)
    requires
        url@ == substitute_spec(
            request.url@,
            old(state).run_variables@,
            old(state).global.env_variables@,
        ),
    ensures
        outcome_matches(
            r,
            *request,
            old(state).run_variables.pairs(),
            old(state).global.env_variables@,
            status,
            body_text@,
        ),
        r.duration == duration,
        final(state).global == old(state).global,
        final(state).run_variables.pairs() == step_pairs(
            *request,
            old(state).run_variables.pairs(),
            body_text@,
        ),
{
    proof {
        crate::vars::lemma_view_of_pairs(&old(state).run_variables);
    }
    let body_empty = body_text.as_str().is_empty();
    let json: Option<JsonValue> = if !body_empty {
        parse_json(body_text.as_str())
    } else {
        None
    };
    match (&request.capture, &json) {
        (Some(caps), Some(j)) => {
            apply_captures(caps, j, &mut state.run_variables);
        },
        _ => {},
    }
    let response_body = if !body_empty {
        Some(body_text)
    } else {
        None
    };
    let (passing, breaking) = match &request.assertion {
        Some(a) => {
            let json_ref = match &json {
                Some(j) => Some(j),
                None => None,
            };
            (assert_response(json_ref, a, Some(status)), a.breaking)
        },
        None => (crate::outcome::AssertionOutcome::Passed, false),
    };
    RequestOutcome {
        name: request.name.clone(),
        method: request.method.as_text(),
        url,
        passing,
        breaking,
        status: Some(status),
        response_body,
        duration,
    }
}

/// Whether an outcome is a failure that halts the rest of its run.
pub open spec fn failing_breaking(o: RequestOutcome) -> bool {
    !(o.passing@ is Passed) && o.breaking
}

/// Appends one outcome to a run's record and says whether the run stops
/// here: exactly when the outcome is a failure marked breaking.
pub fn note_outcome(run_data: &mut RunData, outcome: RequestOutcome) -> (stop: bool)
    ensures
        final(run_data).name == old(run_data).name,
        final(run_data).outcomes@ == old(run_data).outcomes@.push(outcome),
        stop == failing_breaking(outcome),
{
    let failing = !outcome.passing.is_passing();
    let stop = failing && outcome.breaking;
    run_data.outcomes.push(outcome);
    stop
}

/// The run-local namespace after the first `k` requests' captures ran.
pub open spec fn pairs_after(
    reqs: Seq<ExecuteRequest>,
    resps: Seq<HttpResponse>,
    init: Seq<(Seq<char>, Seq<char>)>,
    k: int,
) -> Seq<(Seq<char>, Seq<char>)>
    decreases k,
{
    if k <= 0 || k > reqs.len() || k > resps.len() {
        init
    } else {
        step_pairs(reqs[k - 1], pairs_after(reqs, resps, init, k - 1), resps[k - 1].body@)
    }
}

/// How a run's record relates to its plan, the responses, and the
/// namespaces: outcomes correspond to the requests one for one; no
/// outcome but the last is a breaking failure; and the record is shorter
/// than the plan exactly when a breaking failure cut it off.
pub open spec fn run_result_matches(
    rd: RunData,
    run: RunPlan,
    resps: Seq<HttpResponse>,
    init: Seq<(Seq<char>, Seq<char>)>,
    ev: Map<Seq<char>, Seq<char>>,
) -> bool {
    &&& rd.name == run.name
    &&& rd.outcomes@.len() <= run.requests@.len()
    &&& rd.outcomes@.len() <= resps.len()
    &&& (forall|i: int|
        0 <= i < rd.outcomes@.len() ==> outcome_matches(
            #[trigger] rd.outcomes@[i],
            run.requests@[i],
            pairs_after(run.requests@, resps, init, i),
            ev,
            resps[i].status,
            resps[i].body@,
        ))
    &&& (forall|i: int|
        0 <= i < rd.outcomes@.len() - 1 ==> !failing_breaking(#[trigger] rd.outcomes@[i]))
    &&& (rd.outcomes@.len() < run.requests@.len() ==> rd.outcomes@.len() >= 1 && failing_breaking(
        rd.outcomes@.last(),
    ))
}

/// A breaking failure ends its run on the spot: in any record of a run,
/// the outcome that fails with the breaking flag set is the last one.
/// Sibling runs are untouched: each run's record is determined by its own
/// requests, its own responses and its own fresh namespace alone.
pub proof fn lemma_breaking_short_circuit(
    rd: RunData,
    run: RunPlan,
    resps: Seq<HttpResponse>,
    init: Seq<(Seq<char>, Seq<char>)>,
    ev: Map<Seq<char>, Seq<char>>,
    i: int,
)
    requires
        run_result_matches(rd, run, resps, init, ev),
        0 <= i < rd.outcomes@.len(),
        failing_breaking(rd.outcomes@[i]),
    ensures
        rd.outcomes@.len() == i + 1,
{
}

/// Processes a whole run against responses supplied up front, in order,
/// stopping after a failure marked breaking; a missing response is an
/// internal error, the analogue of a transport failure.
pub fn process_run(run: &RunPlan, responses: &Vec<HttpResponse>, state: &mut RunState) -> (r:
    Result<RunData, AlixtError>)
    ensures
        responses@.len() >= run.requests@.len() ==> r is Ok,
        r matches Ok(rd) ==> {
            &&& run_result_matches(
                rd,
                *run,
                responses@,
                old(state).run_variables.pairs(),
                old(state).global.env_variables@,
            )
            &&& final(state).global == old(state).global
            &&& final(state).run_variables.pairs() == pairs_after(
                run.requests@,
                responses@,
                old(state).run_variables.pairs(),
                rd.outcomes@.len() as int,
            )
        },
        r matches Err(e) ==> e is InternalError && responses@.len() < run.requests@.len(),
{
    let ghost init = old(state).run_variables.pairs();
    let ghost ev = old(state).global.env_variables@;
    let mut run_data = RunData::new(run.name.clone());
    let n = run.requests.len();
    let mut i: usize = 0;
    while i < n
        invariant
            i <= n,
            n == run.requests@.len(),
            run_data.name == run.name,
            run_data.outcomes@.len() == i,
            init == old(state).run_variables.pairs(),
            ev == old(state).global.env_variables@,
            state.global == old(state).global,
            state.global.env_variables@ == ev,
            state.run_variables.pairs() == pairs_after(run.requests@, responses@, init, i as int),
            i <= responses@.len(),
            forall|j: int|
                0 <= j < i ==> outcome_matches(
                    #[trigger] run_data.outcomes@[j],
                    run.requests@[j],
                    pairs_after(run.requests@, responses@, init, j),
                    ev,
                    responses@[j].status,
                    responses@[j].body@,
                ),
            forall|j: int| 0 <= j < i ==> !failing_breaking(#[trigger] run_data.outcomes@[j]),
        decreases n - i,
    {
        if i >= responses.len() {
            let msg = String::from_str("a request had no response to process");
            return Err(AlixtError::InternalError(msg));
        }
        let request = &run.requests[i];
        let prepared = prepare_request(request, state);
        let status = responses[i].status;
        let body = responses[i].body.clone();
        let outcome = evaluate_response(request, prepared.url, state, status, body, 0);
        let ghost prev = run_data.outcomes@;
        let ghost go = outcome;
        let stop = note_outcome(&mut run_data, outcome);
        proof {
            assert(run_data.outcomes@[i as int] == go);
            assert forall|j: int|
                0 <= j < i + 1 implies outcome_matches(
                #[trigger] run_data.outcomes@[j],
                run.requests@[j],
                pairs_after(run.requests@, responses@, init, j),
                ev,
                responses@[j].status,
                responses@[j].body@,
            ) by {
                if j < i {
                    assert(run_data.outcomes@[j] == prev[j]);
                }
            }
        }
        if stop {
            proof {
                assert(run_result_matches(run_data, *run, responses@, init, ev));
                assert(state.run_variables.pairs() == pairs_after(
                    run.requests@,
                    responses@,
                    init,
                    i + 1,
                ));
                assert(run_data.outcomes@.len() == i + 1);
                assert(state.global == old(state).global);
                assert(state.run_variables.pairs() == pairs_after(
                    run.requests@,
                    responses@,
                    init,
                    run_data.outcomes@.len() as int,
                ));
            }
            return Ok(run_data);
        }
        proof {
            assert forall|j: int|
                0 <= j < i + 1 implies !failing_breaking(#[trigger] run_data.outcomes@[j]) by {
                if j < i {
                    assert(run_data.outcomes@[j] == prev[j]);
                }
            }
        }
        i = i + 1;
    }
    proof {
        assert(run_result_matches(run_data, *run, responses@, init, ev));
    }
    Ok(run_data)
}

/// Processes every run of a plan against per-run responses supplied up
/// front.  Each run gets a fresh run-local namespace over the shared
/// global one: a breaking failure in one run never touches its siblings.
pub fn process_test(plan: &TestPlan, responses: &Vec<Vec<HttpResponse>>, global: &Global) -> (r:
    Result<TestData, AlixtError>)
    ensures
        (responses@.len() >= plan.runs@.len() && (forall|i: int|
            0 <= i < plan.runs@.len() ==> (#[trigger] responses@[i])@.len()
                >= plan.runs@[i].requests@.len())) ==> r is Ok,
        r matches Ok(td) ==> {
            &&& td.run_data@.len() == plan.runs@.len()
            &&& forall|i: int|
                0 <= i < plan.runs@.len() ==> run_result_matches(
                    #[trigger] td.run_data@[i],
                    plan.runs@[i],
                    responses@[i]@,
                    Seq::empty(),
                    global.env_variables@,
                )
        },
        r matches Err(e) ==> e is InternalError,
{
    let mut td = TestData::new();
    let n = plan.runs.len();
    let mut i: usize = 0;
    while i < n
        invariant
            i <= n,
            n == plan.runs@.len(),
            td.run_data@.len() == i,
            forall|j: int|
                0 <= j < i ==> run_result_matches(
                    #[trigger] td.run_data@[j],
                    plan.runs@[j],
                    responses@[j]@,
                    Seq::empty(),
                    global.env_variables@,
                ),
            i <= responses@.len(),
        decreases n - i,
    {
        if i >= responses.len() {
            let msg = String::from_str("a run had no responses to process");
            return Err(AlixtError::InternalError(msg));
        }
        let mut state = RunState::new(global.duplicate());
        let ghost st0 = state;
        proof {
            assert(st0.run_variables.pairs() =~= Seq::<(Seq<char>, Seq<char>)>::empty());
        }
        let rd = match process_run(&plan.runs[i], &responses[i], &mut state) {
            Ok(rd) => rd,
            Err(e) => {
                return Err(e);
            },
        };
        let ghost grd = rd;
        let ghost prev = td.run_data@;
        td.run_data.push(rd);
        proof {
            assert(td.run_data@[i as int] == grd);
            assert forall|j: int|
                0 <= j < i + 1 implies run_result_matches(
                #[trigger] td.run_data@[j],
                plan.runs@[j],
                responses@[j]@,
                Seq::empty(),
                global.env_variables@,
            ) by {
                if j < i {
                    assert(td.run_data@[j] == prev[j]);
                }
            }
        }
        i = i + 1;
    }
    Ok(td)
}

} // verus!

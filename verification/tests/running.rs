use alixt::config::{Assert, Method};
use alixt::context::{Global, RunState};
use alixt::engine::{
    evaluate_response, note_outcome, prepare_request, process_run, process_test, HttpResponse,
};
use alixt::env::capture_system_environment;
use alixt::error::AlixtError;
use alixt::outcome::RunData;
use alixt::plan::{ExecuteRequest, RunPlan, TestPlan};
use alixt::vars::VarMap;

fn plain_request(name: &str) -> ExecuteRequest {
    ExecuteRequest {
        name: name.to_string(),
        url: format!("http://host/{name}"),
        method: Method::Get,
        body: None,
        headers: None,
        capture: None,
        assertion: None,
    }
}

fn status_assert(expected: u16, breaking: bool) -> Assert {
    Assert {
        breaking,
        status: Some(expected),
        body_matches: None,
        subset_matches: None,
        subset_includes: None,
        subset_regex: None,
    }
}

fn ok_response() -> HttpResponse {
    HttpResponse { status: 200, body: String::new() }
}

#[test]
fn breaking_failure_cuts_the_run_but_not_its_sibling() {
    let mut failing = plain_request("two");
    failing.assertion = Some(status_assert(200, true));
    let breaking_run = RunPlan {
        name: "breaks".to_string(),
        requests: vec![plain_request("one"), failing, plain_request("three")],
    };
    let steady_run = RunPlan {
        name: "steady".to_string(),
        requests: vec![plain_request("a"), plain_request("b"), plain_request("c")],
    };
    let plan = TestPlan { capture: None, runs: vec![breaking_run, steady_run] };
    let responses = vec![
        vec![
            ok_response(),
            HttpResponse { status: 500, body: String::new() },
            ok_response(),
        ],
        vec![ok_response(), ok_response(), ok_response()],
    ];
    let outcome = process_test(&plan, &responses, &Global::new()).expect("runs");
    assert_eq!(outcome.run_data.len(), 2);
    assert_eq!(outcome.run_data[0].outcomes.len(), 2);
    assert!(!outcome.run_data[0].outcomes[0].breaking);
    assert!(outcome.run_data[0].outcomes[1].breaking);
    assert!(!outcome.run_data[0].outcomes[1].passing.is_passing());
    assert_eq!(outcome.run_data[1].outcomes.len(), 3);
    assert!(outcome.run_data[1].outcomes.iter().all(|o| o.passing.is_passing()));
}

#[test]
fn non_breaking_failure_lets_the_run_continue() {
    let mut failing = plain_request("two");
    failing.assertion = Some(status_assert(200, false));
    let run = RunPlan {
        name: "continues".to_string(),
        requests: vec![plain_request("one"), failing, plain_request("three")],
    };
    let responses = vec![
        ok_response(),
        HttpResponse { status: 500, body: String::new() },
        ok_response(),
    ];
    let mut state = RunState::new(Global::new());
    let rd = process_run(&run, &responses, &mut state).expect("runs");
    assert_eq!(rd.outcomes.len(), 3);
    assert!(!rd.outcomes[1].passing.is_passing());
}

#[test]
fn missing_response_is_an_internal_error() {
    let run = RunPlan {
        name: "short".to_string(),
        requests: vec![plain_request("one"), plain_request("two")],
    };
    let responses = vec![ok_response()];
    let mut state = RunState::new(Global::new());
    let e = process_run(&run, &responses, &mut state).err().expect("must fail");
    assert!(matches!(e, AlixtError::InternalError(_)));
}

#[test]
fn captures_feed_later_requests() {
    let mut caps = VarMap::new();
    caps.insert("token".to_string(), "/auth/token".to_string());
    caps.insert("kind".to_string(), "kind".to_string());
    let mut first = plain_request("login");
    first.capture = Some(caps);
    let mut second = plain_request("use");
    second.url = "http://host/{{token}}/{{kind}}".to_string();
    let run = RunPlan { name: "caps".to_string(), requests: vec![first, second] };
    let responses = vec![
        HttpResponse {
            status: 200,
            body: "{\"auth\":{\"token\":\"abc\"},\"kind\":7}".to_string(),
        },
        ok_response(),
    ];
    let mut state = RunState::new(Global::new());
    let rd = process_run(&run, &responses, &mut state).expect("runs");
    assert_eq!(rd.outcomes[1].url, "http://host/abc/7");
    assert_eq!(state.run_variables.get(&"token".to_string()), Some(&"abc".to_string()));
    assert_eq!(state.run_variables.get(&"kind".to_string()), Some(&"7".to_string()));
}

#[test]
fn prepare_substitutes_url_headers_and_body() {
    let mut global = Global::new();
    global.env_variables.insert("host".to_string(), "example.org".to_string());
    let state = RunState::new(global);
    let mut headers = VarMap::new();
    headers.insert("Authorization".to_string(), "Bearer {{env.host}}".to_string());
    let request = ExecuteRequest {
        name: "r".to_string(),
        url: "https://{{host}}/x".to_string(),
        method: Method::Post,
        body: Some("host={{host}}".to_string()),
        headers: Some(headers),
        capture: None,
        assertion: None,
    };
    let prepared = prepare_request(&request, &state);
    assert_eq!(prepared.url, "https://example.org/x");
    assert_eq!(prepared.body, Some("host=example.org".to_string()));
    assert_eq!(
        prepared.headers.get(&"Authorization".to_string()),
        Some(&"Bearer example.org".to_string())
    );
}

#[test]
fn evaluate_builds_the_outcome_record() {
    let mut request = plain_request("r");
    request.assertion = Some(status_assert(200, true));
    let mut state = RunState::new(Global::new());
    let outcome = evaluate_response(
        &request,
        request.url.clone(),
        &mut state,
        200,
        "{\"x\":1}".to_string(),
        12345,
    );
    assert_eq!(outcome.name, "r");
    assert_eq!(outcome.method, "GET");
    assert_eq!(outcome.status, Some(200));
    assert_eq!(outcome.response_body, Some("{\"x\":1}".to_string()));
    assert_eq!(outcome.duration, 12345);
    assert!(outcome.passing.is_passing());
    assert!(outcome.breaking);

    let mut rd = RunData::new("run".to_string());
    let stop = note_outcome(&mut rd, outcome);
    assert!(!stop);
    assert_eq!(rd.outcomes.len(), 1);
}

#[test]
fn environment_capture_prefers_dot_env() {
    let mut env_map = VarMap::new();
    env_map.insert("host".to_string(), "SERVICE_HOST".to_string());
    env_map.insert("key".to_string(), "SERVICE_KEY".to_string());
    let mut dot_env = VarMap::new();
    dot_env.insert("SERVICE_HOST".to_string(), "from-file".to_string());
    let mut system = VarMap::new();
    system.insert("SERVICE_HOST".to_string(), "from-system".to_string());
    system.insert("SERVICE_KEY".to_string(), "k".to_string());

    let captured =
        capture_system_environment(&env_map, Some(dot_env), &system).expect("resolves");
    assert_eq!(captured.get(&"host".to_string()), Some(&"from-file".to_string()));
    assert_eq!(captured.get(&"key".to_string()), Some(&"k".to_string()));
}

#[test]
fn environment_capture_names_the_missing_variable() {
    let mut env_map = VarMap::new();
    env_map.insert("host".to_string(), "NO_SUCH_VARIABLE".to_string());
    let system = VarMap::new();
    let e = capture_system_environment(&env_map, None, &system).err().expect("must fail");
    match e {
        AlixtError::Config(msg) => {
            assert!(msg.contains("NO_SUCH_VARIABLE"));
            assert!(msg.contains("host"));
        }
        other => panic!("unexpected error {other:?}"),
    }
}

#[test]
fn result_summary_counts_runs() {
    let mut one = alixt::results::RunData::new("one".to_string());
    one.add("first test", 200, true, false);
    one.add("a very long test name indeed", 200, true, false);
    let mut two = alixt::results::RunData::new("two".to_string());
    two.add("second test", 500, false, true);
    assert!(one.is_pass());
    assert!(!two.is_pass());

    let text = one.print();
    assert!(text.starts_with("[API]: 2 tests completed:\n"));
    assert!(text.contains("[PASS] first test\n"));
    assert!(text.contains("[PASS] a very long test nam...\n"));

    let mut all = alixt::results::AllRuns::new();
    all.add(one);
    all.add(two);
    assert!(!all.all_passed());
    let summary = all.display_results();
    assert!(summary.contains("All runs finished. 1 passing, 1 failing."));
    assert!(summary.contains("----[RUN]-0----"));
    assert!(summary.contains("run stopped due to breaking assertion"));
}

#[test]
fn template_text_is_complete() {
    let text = alixt::template::generate_pretty();
    assert!(text.contains("[[run]]"));
    assert!(text.ends_with("\n"));
}

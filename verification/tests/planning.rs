use alixt::config::{Capture, CaptureRequest, Config, Method, Request, Run, Scheme};
use alixt::plan::CapturePlan;
use alixt::error::AlixtError;
use alixt::plan::{ExecuteRequest, RunPlan, TestPlan};
use alixt::vars::VarMap;

fn method_of(text: &str) -> Method {
    match text {
        "Get" | "get" => Method::Get,
        "Post" | "post" => Method::Post,
        "Put" | "put" => Method::Put,
        "Delete" | "delete" => Method::Delete,
        "Patch" | "patch" => Method::Patch,
        other => panic!("unknown method {other}"),
    }
}

fn scheme_of(text: &str) -> Scheme {
    match text {
        "Http" | "http" => Scheme::Http,
        "Https" | "https" => Scheme::Https,
        other => panic!("unknown scheme {other}"),
    }
}

fn request_of(v: &toml::Value) -> Request {
    Request {
        name: v.get("name").and_then(|x| x.as_str()).unwrap_or("").to_string(),
        headers: None,
        method: v.get("method").and_then(|x| x.as_str()).map(method_of),
        scheme: v.get("scheme").and_then(|x| x.as_str()).map(scheme_of),
        host: v.get("host").and_then(|x| x.as_str()).map(|s| s.to_string()),
        port: v.get("port").and_then(|x| x.as_integer()).map(|p| p as u16),
        path: v.get("path").and_then(|x| x.as_str()).map(|s| s.to_string()),
        body: v.get("body").and_then(|x| x.as_str()).map(|s| s.to_string()),
        capture: None,
        assertion: None,
    }
}

fn config_of(input: &str) -> Config {
    let value: toml::Value = toml::from_str(input).expect("configuration should parse");
    let runs = value
        .get("run")
        .and_then(|x| x.as_array())
        .expect("runs should be present")
        .iter()
        .map(|r| Run {
            name: r.get("name").and_then(|x| x.as_str()).unwrap_or("").to_string(),
            headers: None,
            method: r.get("method").and_then(|x| x.as_str()).map(method_of),
            scheme: r.get("scheme").and_then(|x| x.as_str()).map(scheme_of),
            host: r.get("host").and_then(|x| x.as_str()).map(|s| s.to_string()),
            port: r.get("port").and_then(|x| x.as_integer()).map(|p| p as u16),
            path: r.get("path").and_then(|x| x.as_str()).map(|s| s.to_string()),
            body: r.get("body").and_then(|x| x.as_str()).map(|s| s.to_string()),
            request: r
                .get("request")
                .and_then(|x| x.as_array())
                .map(|reqs| reqs.iter().map(request_of).collect())
                .unwrap_or_default(),
        })
        .collect();
    Config { capture: None, run: runs }
}

const INHERITANCE_TOML: &str = r#"
        [[run]]
        name = "Base Run"
        method = "Get"
        scheme = "Http"
        host = "0.0.0.0"
        port = 4848
        path = "/hello/world"

        [[run.request]]
        name = "Inherit from run"

        [[run.request]]
        name = "Overrides everything"
        method = "Post"
        scheme = "Https"
        host = "api.example.com"
        port = 80
        path = "/a/new/path"
        "#;

#[test]
fn test_variable_inheritance() {
    let config = config_of(INHERITANCE_TOML);

    let plan = match TestPlan::from_config(config) {
        Ok(plan) => plan,
        Err(e) => panic!("ERROR: {e:#?}"),
    };

    let req_inherit = &plan.runs[0].requests[0];
    assert_eq!(req_inherit.url, "http://0.0.0.0:4848/hello/world");
    assert_eq!(req_inherit.method, Method::Get);

    let req_override = &plan.runs[0].requests[1];
    assert_eq!(req_override.url, "https://api.example.com:80/a/new/path");
    assert_eq!(req_override.method, Method::Post);
}

#[test]
fn test_parse_inheritance() {
    let config = config_of(INHERITANCE_TOML);

    let plan = match TestPlan::from_config(config) {
        Ok(plan) => plan,
        Err(e) => panic!("ERROR: {e:#?}"),
    };

    let req_inherit = &plan.runs[0].requests[0];
    assert_eq!(req_inherit.url, "http://0.0.0.0:4848/hello/world");
    assert_eq!(req_inherit.method, Method::Get);

    let req_override = &plan.runs[0].requests[1];
    assert_eq!(req_override.url, "https://api.example.com:80/a/new/path");
    assert_eq!(req_override.method, Method::Post);
}

fn bare_request(name: &str) -> Request {
    Request {
        name: name.to_string(),
        headers: None,
        method: None,
        scheme: None,
        host: None,
        port: None,
        path: None,
        body: None,
        capture: None,
        assertion: None,
    }
}

fn bare_run(name: &str, requests: Vec<Request>) -> Run {
    Run {
        name: name.to_string(),
        headers: None,
        method: None,
        scheme: None,
        host: None,
        port: None,
        path: None,
        body: None,
        request: requests,
    }
}

#[test]
fn each_field_inherits_independently() {
    // the run supplies every default; a silent request takes them all
    let mut run = bare_run("defaults", vec![bare_request("a"), bare_request("b")]);
    run.method = Some(Method::Get);
    run.scheme = Some(Scheme::Https);
    run.host = Some("a.com".to_string());
    run.port = Some(80);
    run.path = Some("/x".to_string());
    // the second request overrides method, host and path; scheme and port
    // still come from the run
    run.request[1].method = Some(Method::Post);
    run.request[1].host = Some("b.com".to_string());
    run.request[1].path = Some("/y".to_string());

    let plan = RunPlan::from_run(run).expect("both requests resolve");
    assert_eq!(plan.requests[0].url, "https://a.com:80/x");
    assert_eq!(plan.requests[0].method, Method::Get);
    assert_eq!(plan.requests[1].url, "https://b.com:80/y");
    assert_eq!(plan.requests[1].method, Method::Post);
}

#[test]
fn missing_path_defaults_to_slash() {
    let mut run = bare_run("r", vec![bare_request("a")]);
    run.method = Some(Method::Get);
    run.scheme = Some(Scheme::Http);
    run.host = Some("h".to_string());
    let plan = RunPlan::from_run(run).expect("resolves");
    assert_eq!(plan.requests[0].url, "http://h/");
}

#[test]
fn missing_method_is_a_config_error() {
    let mut run = bare_run("r", vec![bare_request("nameless")]);
    run.scheme = Some(Scheme::Http);
    run.host = Some("h".to_string());
    let e = RunPlan::from_run(run).err().expect("must fail");
    assert!(matches!(e, AlixtError::Config(_)));
    assert!(e.text().contains("method"));
}

#[test]
fn headers_replace_wholesale() {
    let mut run_headers = VarMap::new();
    run_headers.insert("Accept".to_string(), "application/json".to_string());
    run_headers.insert("X-Run".to_string(), "yes".to_string());
    let mut own_headers = VarMap::new();
    own_headers.insert("X-Own".to_string(), "only".to_string());

    let mut run = bare_run("r", vec![bare_request("inherits"), bare_request("overrides")]);
    run.method = Some(Method::Get);
    run.scheme = Some(Scheme::Http);
    run.host = Some("h".to_string());
    run.headers = Some(run_headers);
    run.request[1].headers = Some(own_headers);

    let plan = RunPlan::from_run(run).expect("resolves");

    // the first request inherits the run's header map verbatim
    let inherited = plan.requests[0].headers.as_ref().expect("inherited headers");
    assert_eq!(
        inherited.get(&"Accept".to_string()),
        Some(&"application/json".to_string())
    );
    assert_eq!(inherited.get(&"X-Run".to_string()), Some(&"yes".to_string()));
    assert_eq!(inherited.len(), 2);

    // the second request's own map replaces the run's entirely
    let own = plan.requests[1].headers.as_ref().expect("own headers");
    assert_eq!(own.get(&"X-Own".to_string()), Some(&"only".to_string()));
    assert_eq!(own.get(&"Accept".to_string()), None);
    assert_eq!(own.len(), 1);
}

#[test]
fn capture_plan_keeps_requests_without_assertion() {
    let capture = Capture {
        env_file: Some("./secrets/.env".to_string()),
        environment_variables: None,
        request: Some(vec![CaptureRequest {
            name: Some("prime".to_string()),
            headers: None,
            method: Method::Get,
            scheme: Scheme::Https,
            host: "example.org".to_string(),
            port: Some(7878),
            path: Some("/api/v1/version".to_string()),
            body: None,
            capture: None,
        }]),
    };
    let plan = CapturePlan::from_config(capture);
    assert_eq!(plan.env_file, Some("./secrets/.env".to_string()));
    let requests = plan.requests.expect("requests kept");
    assert_eq!(requests.len(), 1);
    assert_eq!(requests[0].name, "prime");
    assert_eq!(requests[0].url, "https://example.org:7878/api/v1/version");
    assert!(requests[0].assertion.is_none());
}

#[test]
fn from_request_rejects_missing_host() {
    let req = bare_request("lost");
    let e = ExecuteRequest::from_request(req).err().expect("must fail");
    assert!(matches!(e, AlixtError::Config(_)));
}

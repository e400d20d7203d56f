//! The resolved request plan.
//!
//! The builder walks a configuration tree and produces a flat list of fully
//! specified requests: every field that a request leaves out is taken from
//! its run's defaults, a missing method, scheme or host is a configuration
//! error, and the remaining optional fields default to no port, the path
//! `/` and no body.  The builder performs no variable substitution: that
//! happens at execution time, when captured values exist.

use vstd::prelude::*;

use crate::config::{
    scheme_text, Assert, Capture, CaptureRequest, Config, Method, Request, Run, Scheme,
};
use crate::error::AlixtError;
use crate::text::{chars_to_string, dec_rep, u64_to_chars};
use crate::vars::VarMap;

verus! {

/// The view of an optional text field.
pub open spec fn opt_text(o: Option<String>) -> Option<Seq<char>> {
    match o {
        Some(s) => Some(s@),
        None => None,
    }
}

/// The entries of an optional namespace, in insertion order.
pub open spec fn opt_pairs(o: Option<VarMap>) -> Option<Seq<(Seq<char>, Seq<char>)>> {
    match o {
        Some(m) => Some(m.pairs()),
        None => None,
    }
}

/// The URL a resolved request addresses: `scheme://host[:port][path]`,
/// with the path defaulting to `/`.
pub open spec fn url_text(
    scheme: Scheme,
    host: Seq<char>,
    port: Option<u16>,
    path: Option<Seq<char>>,
) -> Seq<char> {
    scheme_text(scheme) + "://"@ + host + (match port {
        Some(p) => ":"@ + dec_rep(p as nat),
        None => Seq::<char>::empty(),
    }) + (match path {
        Some(t) => t,
        None => "/"@,
    })
}

/// Formats the URL of a resolved request.
pub fn format_url(scheme: Scheme, host: &String, port: Option<u16>, path: Option<String>) -> (r:
    String)
    ensures
        r@ == url_text(scheme, host@, port, opt_text(path)),
{
    let mut url = scheme.as_text();
    url.append("://");
    url.append(host.as_str());
    match port {
        Some(p) => {
            url.append(":");
            let digits = u64_to_chars(p as u64);
            let text = chars_to_string(&digits);
            url.append(text.as_str());
        },
        None => {},
    }
    match path {
        Some(p) => url.append(p.as_str()),
        None => url.append("/"),
    }
    url
}

/// A request with every field resolved, ready for the transport.
pub struct ExecuteRequest {
    pub name: String,
    pub url: String,
    pub method: Method,
    pub body: Option<String>,
    pub headers: Option<VarMap>,
    pub capture: Option<VarMap>,
    pub assertion: Option<Assert>,
}

/// Whether a request has a method, scheme and host, its own or its run's.
pub open spec fn request_complete(req: Request, run: Run) -> bool {
    &&& req.method is Some || run.method is Some
    &&& req.scheme is Some || run.scheme is Some
    &&& req.host is Some || run.host is Some
}

/// How a resolved request relates to the request it came from and the run
/// it inherited from: each field independently is the request's own where
/// present, else the run's default; headers are taken from one side whole;
/// capture and assertion pass through untouched.
pub open spec fn resolved_matches(er: ExecuteRequest, req: Request, run: Run) -> bool {
    let scheme = if req.scheme is Some {
        req.scheme->0
    } else if run.scheme is Some {
        run.scheme->0
    } else {
        Scheme::Http
    };
    let host = if req.host is Some {
        req.host->0@
    } else {
        run.host->0@
    };
    let port = if req.port is Some {
        req.port
    } else {
        run.port
    };
    let path = if req.path is Some {
        opt_text(req.path)
    } else {
        opt_text(run.path)
    };
    &&& er.name == req.name
    &&& er.method == (if req.method is Some {
        req.method->0
    } else {
        run.method->0
    })
    &&& er.url@ == url_text(scheme, host, port, path)
    &&& er.body == (if req.body is Some {
        req.body
    } else {
        run.body
    })
    &&& opt_pairs(er.headers) == (if req.headers is Some {
        opt_pairs(req.headers)
    } else {
        opt_pairs(run.headers)
    })
    &&& er.capture == req.capture
    &&& er.assertion == req.assertion
}

/// Copies an optional text field.
fn clone_opt_string(o: &Option<String>) -> (r: Option<String>)
    ensures
        r == *o,
{
    match o {
        Some(s) => Some(s.clone()),
        None => None,
    }
}

/// Copies an optional namespace, entry for entry.
fn clone_opt_varmap(o: &Option<VarMap>) -> (r: Option<VarMap>)
    ensures
        opt_pairs(r) == opt_pairs(*o),
{
    match o {
        Some(m) => Some(m.duplicate()),
        None => None,
    }
}

impl ExecuteRequest {
    /// Resolves a request whose inheritance has already been applied.  A
    /// missing host or method is a configuration error; a missing scheme
    /// falls back to plain HTTP.
    pub fn from_request(request: Request) -> (r: Result<ExecuteRequest, AlixtError>)
        ensures
            r is Ok <==> request.host is Some && request.method is Some,
            r matches Ok(er) ==> {
                &&& er.name == request.name
                &&& er.method == request.method->0
                &&& er.url@ == url_text(
                    if request.scheme is Some {
                        request.scheme->0
                    } else {
                        Scheme::Http
                    },
                    request.host->0@,
                    request.port,
                    opt_text(request.path),
                )
                &&& er.body == request.body
                &&& er.headers == request.headers
                &&& er.capture == request.capture
                &&& er.assertion == request.assertion
            },
            r matches Err(e) ==> e is Config,
    {
        let Request { name, headers, method, scheme, host, port, path, body, capture, assertion } =
            request;
        let host = match host {
            Some(h) => h,
            None => {
                let mut msg = String::from_str("Internal Error: Request ");
                msg.append(name.as_str());
                msg.append(" missing host, got past checks");
                return Err(AlixtError::Config(msg));
            },
        };
        let method = match method {
            Some(m) => m,
            None => {
                let mut msg = String::from_str("Internal Error: Request ");
                msg.append(name.as_str());
                msg.append(" missing method, got past checks");
                return Err(AlixtError::Config(msg));
            },
        };
        let scheme = match scheme {
            Some(s) => s,
            None => Scheme::Http,
        };
        let url = format_url(scheme, &host, port, path);
        Ok(ExecuteRequest { name, url, method, body, headers, capture, assertion })
    }
}

/// A run's resolved requests, in declaration order.
pub struct RunPlan {
    pub name: String,
    pub requests: Vec<ExecuteRequest>,
}

/// How a run plan relates to the run it was built from.
pub open spec fn run_plan_matches(rp: RunPlan, run: Run) -> bool {
    &&& rp.name == run.name
    &&& rp.requests@.len() == run.request@.len()
    &&& forall|i: int|
        0 <= i < run.request@.len() ==> resolved_matches(
            #[trigger] rp.requests@[i],
            run.request@[i],
            run,
        )
}

/// Whether every request of the run can be resolved.
pub open spec fn run_complete(run: Run) -> bool {
    forall|i: int| 0 <= i < run.request@.len() ==> request_complete(#[trigger] run.request@[i], run)
}

impl RunPlan {
    /// An empty plan for a named run.
    pub fn new(name: String) -> (r: Self)
        ensures
            r.name == name,
            r.requests@.len() == 0,
    {
        RunPlan { name, requests: Vec::new() }
    }

    /// Resolves a run's requests against its defaults, in order, stopping
    /// at the first request that is missing a method, scheme or host.
    pub fn from_run(run: Run) -> (r: Result<RunPlan, AlixtError>)
        ensures
            r is Ok <==> run_complete(run),
            r matches Ok(rp) ==> run_plan_matches(rp, run),
            r matches Err(e) ==> e is Config,
    {
        let Run { name, headers, method, scheme, host, port, path, body, request } = run;
        let mut queue = request;
        let ghost orig = queue@;
        let mut requests: Vec<ExecuteRequest> = Vec::new();
        while queue.len() > 0
            invariant
                queue@ =~= orig.subrange(orig.len() - queue@.len(), orig.len() as int),
                requests@.len() + queue@.len() == orig.len(),
                orig == run.request@,
                name == run.name,
                headers == run.headers,
                method == run.method,
                scheme == run.scheme,
                host == run.host,
                port == run.port,
                path == run.path,
                body == run.body,
                forall|j: int|
                    #![all_triggers]
                    0 <= j < requests@.len() ==> request_complete(orig[j], run) && resolved_matches(
                        requests@[j],
                        orig[j],
                        run,
                    ),
            decreases queue@.len(),
        {
            let ghost k = requests@.len() as int;
            let mut req = queue.remove(0);
            proof {
                assert(req == orig[k]);
                assert(queue@ =~= orig.subrange(orig.len() - queue@.len(), orig.len() as int));
            }
            let ghost r0 = req;
            if req.headers.is_none() && headers.is_some() {
                req.headers = clone_opt_varmap(&headers);
            }
            if req.method.is_none() {
                if method.is_none() {
                    let mut msg = String::from_str("No default or explicit method present for ");
                    msg.append(req.name.as_str());
                    return Err(AlixtError::Config(msg));
                }
                req.method = method;
            }
            if req.scheme.is_none() {
                if scheme.is_none() {
                    let mut msg = String::from_str("No default or explicit scheme present for ");
                    msg.append(req.name.as_str());
                    return Err(AlixtError::Config(msg));
                }
                req.scheme = scheme;
            }
            if req.host.is_none() {
                if host.is_none() {
                    let mut msg = String::from_str("No default or explicit host present for ");
                    msg.append(req.name.as_str());
                    return Err(AlixtError::Config(msg));
                }
                req.host = clone_opt_string(&host);
            }
            if req.port.is_none() {
                req.port = port;
            }
            if req.path.is_none() {
                req.path = clone_opt_string(&path);
            }
            if req.body.is_none() {
                req.body = clone_opt_string(&body);
            }
            let er = match ExecuteRequest::from_request(req) {
                Ok(er) => er,
                Err(e) => {
                    proof {
                        assert(false);
                    }
                    return Err(e);
                },
            };
            proof {
                assert(request_complete(orig[k], run));
                assert(resolved_matches(er, orig[k], run));
            }
            let ghost ger = er;
            let ghost prev = requests@;
            requests.push(er);
            proof {
                assert(requests@[k] == ger);
                assert forall|j: int|
                    0 <= j < requests@.len() implies request_complete(orig[j], run)
                    && resolved_matches(#[trigger] requests@[j], orig[j], run) by {
                    if j < k {
                        assert(requests@[j] == prev[j]);
                        assert(request_complete(orig[j], run) && resolved_matches(
                            prev[j],
                            orig[j],
                            run,
                        ));
                    } else {
                        assert(j == k);
                        assert(resolved_matches(ger, orig[k], run));
                    }
                }
            }
        }
        proof {
            assert forall|i: int|
                0 <= i < run.request@.len() implies request_complete(
                #[trigger] run.request@[i],
                run,
            ) by {
                assert(request_complete(orig[i], run) && resolved_matches(
                    requests@[i],
                    orig[i],
                    run,
                ));
            }
            assert(run_complete(run));
        }
        let rp = RunPlan { name, requests };
        proof {
            assert(run_plan_matches(rp, run));
        }
        Ok(rp)
    }
}

/// The capture phase, resolved: the priming requests carry final URLs and
/// no assertion.
pub struct CapturePlan {
    pub env_file: Option<String>,
    pub environment_variables: Option<VarMap>,
    pub requests: Option<Vec<ExecuteRequest>>,
}

/// How a resolved priming request relates to the one it came from.
pub open spec fn capture_request_matches(er: ExecuteRequest, cr: CaptureRequest) -> bool {
    &&& er.name@ == (match cr.name {
        Some(n) => n@,
        None => Seq::<char>::empty(),
    })
    &&& er.method == cr.method
    &&& er.url@ == url_text(cr.scheme, cr.host@, cr.port, opt_text(cr.path))
    &&& er.body == cr.body
    &&& er.headers == cr.headers
    &&& er.capture == cr.capture
    &&& er.assertion is None
}

impl CapturePlan {
    /// Resolves the capture phase: the environment map and file name pass
    /// through; each priming request gets its final URL.
    pub fn from_config(capture: Capture) -> (r: CapturePlan)
        ensures
            opt_text(r.env_file) == opt_text(capture.env_file),
            match (r.environment_variables, capture.environment_variables) {
                (Some(a), Some(b)) => a == b,
                (None, None) => true,
                _ => false,
            },
            match (r.requests, capture.request) {
                (Some(rs), Some(cs)) => rs@.len() == cs@.len() && (forall|i: int|
                    0 <= i < cs@.len() ==> capture_request_matches(#[trigger] rs@[i], cs@[i])),
                (None, None) => true,
                _ => false,
            },
    {
        let Capture { env_file, environment_variables, request } = capture;
        let requests = match request {
            Some(list) => {
                let mut queue = list;
                let ghost orig = queue@;
                let mut out: Vec<ExecuteRequest> = Vec::new();
                while queue.len() > 0
                    invariant
                        queue@ =~= orig.subrange(orig.len() - queue@.len(), orig.len() as int),
                        out@.len() + queue@.len() == orig.len(),
                        forall|j: int|
                            0 <= j < out@.len() ==> capture_request_matches(
                                #[trigger] out@[j],
                                orig[j],
                            ),
                    decreases queue@.len(),
                {
                    let ghost k = out@.len() as int;
                    let cr = queue.remove(0);
                    proof {
                        assert(cr == orig[k]);
                        assert(queue@ =~= orig.subrange(
                            orig.len() - queue@.len(),
                            orig.len() as int,
                        ));
                    }
                    let CaptureRequest {
                        name,
                        headers,
                        method,
                        scheme,
                        host,
                        port,
                        path,
                        body,
                        capture: cap,
                    } = cr;
                    let name = match name {
                        Some(n) => n,
                        None => String::new(),
                    };
                    let url = format_url(scheme, &host, port, path);
                    let er = ExecuteRequest {
                        name,
                        url,
                        method,
                        body,
                        headers,
                        capture: cap,
                        assertion: None,
                    };
                    out.push(er);
                    proof {
                        assert(capture_request_matches(out@[k], orig[k]));
                    }
                }
                Some(out)
            },
            None => None,
        };
        CapturePlan { env_file, environment_variables, requests }
    }
}

/// A whole test, resolved: the optional capture phase and the run plans.
pub struct TestPlan {
    pub capture: Option<CapturePlan>,
    pub runs: Vec<RunPlan>,
}

impl Default for TestPlan {
    /// An empty plan.
    fn default() -> (r: Self)
        ensures
            r.capture is None,
            r.runs@.len() == 0,
    {
        TestPlan::new()
    }
}

impl TestPlan {
    /// An empty plan.
    pub fn new() -> (r: Self)
        ensures
            r.capture is None,
            r.runs@.len() == 0,
    {
        TestPlan { capture: None, runs: Vec::new() }
    }

    /// Resolves a whole configuration, stopping at the first run that
    /// cannot be resolved.
    pub fn from_config(config: Config) -> (r: Result<TestPlan, AlixtError>)
        ensures
            r is Ok <==> (forall|i: int|
                0 <= i < config.run@.len() ==> run_complete(#[trigger] config.run@[i])),
            r matches Ok(plan) ==> {
                &&& plan.runs@.len() == config.run@.len()
                &&& forall|i: int|
                    0 <= i < config.run@.len() ==> run_plan_matches(
                        #[trigger] plan.runs@[i],
                        config.run@[i],
                    )
                &&& (plan.capture is Some <==> config.capture is Some)
            },
            r matches Err(e) ==> e is Config,
    {
        let Config { capture, run } = config;
        let capture_plan = match capture {
            Some(c) => Some(CapturePlan::from_config(c)),
            None => None,
        };
        let mut queue = run;
        let ghost orig = queue@;
        let mut runs: Vec<RunPlan> = Vec::new();
        while queue.len() > 0
            invariant
                queue@ =~= orig.subrange(orig.len() - queue@.len(), orig.len() as int),
                runs@.len() + queue@.len() == orig.len(),
                orig == config.run@,
                forall|j: int|
                    #![all_triggers]
                    0 <= j < runs@.len() ==> run_complete(orig[j]) && run_plan_matches(
                        runs@[j],
                        orig[j],
                    ),
            decreases queue@.len(),
        {
            let ghost k = runs@.len() as int;
            let one = queue.remove(0);
            proof {
                assert(one == orig[k]);
                assert(queue@ =~= orig.subrange(orig.len() - queue@.len(), orig.len() as int));
            }
            let rp = match RunPlan::from_run(one) {
                Ok(rp) => rp,
                Err(e) => {
                    return Err(e);
                },
            };
            let ghost grp = rp;
            let ghost prev = runs@;
            runs.push(rp);
            proof {
                assert(runs@[k] == grp);
                assert forall|j: int|
                    0 <= j < runs@.len() implies run_complete(orig[j]) && run_plan_matches(
                    #[trigger] runs@[j],
                    orig[j],
                ) by {
                    if j < k {
                        assert(runs@[j] == prev[j]);
                        assert(run_complete(orig[j]) && run_plan_matches(prev[j], orig[j]));
                    } else {
                        assert(j == k);
                        assert(run_plan_matches(grp, orig[k]));
                    }
                }
            }
        }
        proof {
        assert forall|i: int|
                0 <= i < config.run@.len() implies run_complete(#[trigger] config.run@[i]) by {
                assert(run_complete(orig[i]) && run_plan_matches(runs@[i], orig[i]));
            }
        }
        Ok(TestPlan { capture: capture_plan, runs })
    }
}

} // verus!

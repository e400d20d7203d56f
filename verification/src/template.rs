//! The example configuration template.

use vstd::prelude::*;

verus! {

/// An annotated example configuration, ready to adapt.
pub const PRETTY_TEMPLATE: &'static str = r#"
[capture]
env_file = "./secrets/.env"

  [capture.environment_variables]
  host = "FORGEJO_HOST"

  [[capture.request]]
  name = "Get Forgejo Version"
  method = "get"
  scheme = "https"
  host = "{{host}}"
  port = 7878
  path = "/api/v1/version"

    [capture.request.headers]
    Accept = "application/json"

    [capture.request.capture]
    forgejo_version = "/version"

[[run]]
name = "Example Test Configuration"
method = "get"
scheme = "https"
host = "{{host}}"
port = 7878

  [run.headers]
  Content-Type = "application/json"

  [[run.request]]
  name = "Confirm Forgejo Version"
  path = "/api/v1/version"

    # you can override the run level defaults, if you want
    [run.request.headers]
    Accept = "application/json"

    [run.request.assert]
    breaking = true
    status = 200
    subset_includes = ["/version"]

    [run.request.assert.body_matches]
    "/version" = "13.0.2+gitea-1.22.0"

    [run.request.assert.subset_matches]
    "/version" = "{{forgejo_version}}"

    [run.request.assert.subset_regex]
    "/version" = '^\d+\..*gitea.*$'

  [[run.request]]
  name = "Some Random Example"
  method = "post"
  scheme = "https"
  path = "/signup"
  body = """
  {
      "name": "Doug Walker",
      "username": "digdug",
      "password": "password123",
      "email": "exapmle@example.com"
  }
  """
"#;

/// The example configuration's text, with a final line break.
pub fn generate_pretty() -> (r: String)
    ensures
        r@ == PRETTY_TEMPLATE@ + "\n"@,
{
    let mut out = String::from_str(PRETTY_TEMPLATE);
    out.append("\n");
    out
}

} // verus!

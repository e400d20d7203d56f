//! The assertion evaluator.
//!
//! Given a parsed response body, an observed status and a declarative
//! assertion, it gathers every violation: a status mismatch, a missing
//! JSON body where a JSON check is required, and the violations of the
//! four JSON modes — exact match, subset match, presence, and pattern
//! match — all additive and in declaration order.

use vstd::prelude::*;

use crate::config::{Assert, AssertMap};
use crate::jsonval::{json_text, leaf_paths, pointer_spec, JNode, JsonValue};
use crate::outcome::{
    fails_model, lemma_fails_model_push, AssertionOutcome, FailureType, JFailure,
};
use crate::rex::{regex_accepts, regex_compiles, CompiledRegex};

verus! {

/// The views of a list of paths, in order.
pub open spec fn strs_model(s: Seq<String>) -> Seq<Seq<char>>
    decreases s,
{
    if s.len() == 0 {
        Seq::empty()
    } else {
        seq![s[0]@] + strs_model(s.drop_first())
    }
}

/// The shape of a path list's model, entry for entry.
pub proof fn lemma_strs_model(s: Seq<String>)
    ensures
        strs_model(s).len() == s.len(),
        forall|i: int| 0 <= i < s.len() ==> strs_model(s)[i] == (#[trigger] s[i])@,
    decreases s.len(),
{
    if s.len() > 0 {
        lemma_strs_model(s.drop_first());
        assert forall|i: int| 0 <= i < s.len() implies strs_model(s)[i] == (#[trigger] s[i])@ by {
            if i > 0 {
                assert(s.drop_first()[i - 1] == s[i]);
            }
        }
    }
}

/// Whether the expected map names the path.
pub open spec fn has_key(expected: Seq<(Seq<char>, JNode)>, path: Seq<char>) -> bool {
    exists|i: int| 0 <= i < expected.len() && (#[trigger] expected[i]).0 == path
}

/// The violations of an expected status: none where none is expected, a
/// mismatch where the observed status is absent or different.
pub open spec fn status_failures(expected: Option<u16>, status: Option<u16>) -> Seq<JFailure> {
    match expected {
        None => Seq::empty(),
        Some(e) => if status == Some(e) {
            Seq::empty()
        } else {
            seq![JFailure::StatusMismatch { expected: e, found: status }]
        },
    }
}

/// The violations of one subset entry: the path must exist, and its value
/// must equal the expected one unless the expected value is the wildcard
/// string `*`, which accepts anything.
pub open spec fn subset_one(j: JNode, path: Seq<char>, val: JNode) -> Seq<JFailure> {
    match pointer_spec(j, path) {
        None => seq![JFailure::JsonMissingField { path }],
        Some(actual) => if val == JNode::Str(seq!['*']) {
            Seq::empty()
        } else if val == actual {
            Seq::empty()
        } else {
            seq![
                JFailure::JsonValueMismatch {
                    path,
                    expected: json_text(val),
                    found: json_text(actual),
                },
            ]
        },
    }
}

/// The subset violations of the first `k` expected entries, in order.
pub open spec fn subset_failures(j: JNode, expected: Seq<(Seq<char>, JNode)>, k: int) -> Seq<
    JFailure,
>
    decreases k,
{
    if k <= 0 || k > expected.len() {
        Seq::empty()
    } else {
        subset_failures(j, expected, k - 1) + subset_one(j, expected[k - 1].0, expected[k - 1].1)
    }
}

/// The extra-field violations among the first `k` leaf paths of the body:
/// each leaf path the expected map does not name is one violation.
pub open spec fn extra_failures(j: JNode, expected: Seq<(Seq<char>, JNode)>, k: int) -> Seq<
    JFailure,
>
    decreases k,
{
    let paths = leaf_paths(j, Seq::empty());
    if k <= 0 || k > paths.len() {
        Seq::empty()
    } else {
        extra_failures(j, expected, k - 1) + (if has_key(expected, paths[k - 1]) {
            Seq::empty()
        } else {
            seq![JFailure::JsonExtraField { path: paths[k - 1] }]
        })
    }
}

/// The presence violations of the first `k` required paths.
pub open spec fn includes_failures(j: JNode, paths: Seq<Seq<char>>, k: int) -> Seq<JFailure>
    decreases k,
{
    if k <= 0 || k > paths.len() {
        Seq::empty()
    } else {
        includes_failures(j, paths, k - 1) + (match pointer_spec(j, paths[k - 1]) {
            Some(_) => Seq::empty(),
            None => seq![JFailure::JsonMissingField { path: paths[k - 1] }],
        })
    }
}

/// The violations of one pattern entry: the path must hold a string; the
/// expected value must itself be a string and a valid pattern; and the
/// string must match it.
pub open spec fn regex_one(j: JNode, path: Seq<char>, val: JNode) -> Seq<JFailure> {
    match pointer_spec(j, path) {
        None => seq![JFailure::JsonMissingField { path }],
        Some(actual) => if actual is Str {
            if !(val is Str) {
                seq![
                    JFailure::JsonRegexMismatch {
                        path,
                        pattern: json_text(val),
                        found: "Invalid Regex Syntax"@,
                    },
                ]
            } else if !regex_compiles(val->Str_0) {
                seq![
                    JFailure::JsonRegexMismatch {
                        path,
                        pattern: val->Str_0,
                        found: "Invalid Regex Syntax"@,
                    },
                ]
            } else if !regex_accepts(val->Str_0, actual->Str_0) {
                seq![
                    JFailure::JsonRegexMismatch {
                        path,
                        pattern: val->Str_0,
                        found: actual->Str_0,
                    },
                ]
            } else {
                Seq::empty()
            }
        } else {
            seq![JFailure::JsonNotString { path }]
        },
    }
}

/// The pattern violations of the first `k` expected entries, in order.
pub open spec fn regex_failures(j: JNode, expected: Seq<(Seq<char>, JNode)>, k: int) -> Seq<
    JFailure,
>
    decreases k,
{
    if k <= 0 || k > expected.len() {
        Seq::empty()
    } else {
        regex_failures(j, expected, k - 1) + regex_one(j, expected[k - 1].0, expected[k - 1].1)
    }
}

/// Whether the assertion asks for any check against the JSON body.
pub open spec fn has_json_checks(a: Assert) -> bool {
    a.body_matches is Some || a.subset_matches is Some || a.subset_includes is Some
        || a.subset_regex is Some
}

/// The violations of the exact-match mode, if present: every extra leaf
/// path, then the subset comparison of the expected entries.
pub open spec fn body_matches_failures(a: Assert, j: JNode) -> Seq<JFailure> {
    match a.body_matches {
        Some(bm) => {
            let m = crate::jsonval::obj_model(bm@);
            extra_failures(j, m, leaf_paths(j, Seq::empty()).len() as int) + subset_failures(
                j,
                m,
                m.len() as int,
            )
        },
        None => Seq::empty(),
    }
}

/// The violations of the subset mode, if present.
pub open spec fn subset_matches_failures(a: Assert, j: JNode) -> Seq<JFailure> {
    match a.subset_matches {
        Some(sm) => {
            let m = crate::jsonval::obj_model(sm@);
            subset_failures(j, m, m.len() as int)
        },
        None => Seq::empty(),
    }
}

/// The violations of the presence mode, if present.
pub open spec fn includes_failures_of(a: Assert, j: JNode) -> Seq<JFailure> {
    match a.subset_includes {
        Some(inc) => {
            let ps = strs_model(inc@);
            includes_failures(j, ps, ps.len() as int)
        },
        None => Seq::empty(),
    }
}

/// The violations of the pattern mode, if present.
pub open spec fn regex_failures_of(a: Assert, j: JNode) -> Seq<JFailure> {
    match a.subset_regex {
        Some(sr) => {
            let m = crate::jsonval::obj_model(sr@);
            regex_failures(j, m, m.len() as int)
        },
        None => Seq::empty(),
    }
}

/// Every violation the assertion finds, in evaluation order: the status
/// check first; then, where a JSON mode is present, either the single
/// invalid-JSON violation when no body parsed, or the violations of the
/// four modes in order.
pub open spec fn assert_failures(a: Assert, json: Option<JNode>, status: Option<u16>) -> Seq<
    JFailure,
> {
    let sf = status_failures(a.status, status);
    if !has_json_checks(a) {
        sf
    } else {
        match json {
            None => sf + seq![JFailure::InvalidJson],
            Some(j) => sf + body_matches_failures(a, j) + subset_matches_failures(a, j)
                + includes_failures_of(a, j) + regex_failures_of(a, j),
        }
    }
}

/// The outcome that carries the violations: a pass when there are none.
pub open spec fn outcome_of(fs: Seq<JFailure>) -> crate::outcome::JOutcome {
    if fs.len() == 0 {
        crate::outcome::JOutcome::Passed
    } else {
        crate::outcome::JOutcome::Failed(fs)
    }
}

/// A wildcard expected value accepts any value present at its path,
/// whatever that value's type.
pub proof fn lemma_wildcard_accepts(j: JNode, path: Seq<char>)
    requires
        pointer_spec(j, path) is Some,
    ensures
        subset_one(j, path, JNode::Str(seq!['*'])) == Seq::<JFailure>::empty(),
{
}

/// A pattern assertion whose path holds a non-string is exactly one
/// not-a-string violation, never a pattern violation.
pub proof fn lemma_regex_requires_string(j: JNode, path: Seq<char>, val: JNode)
    requires
        pointer_spec(j, path) matches Some(actual) && !(actual is Str),
    ensures
        regex_one(j, path, val) == seq![JFailure::JsonNotString { path }],
{
}

/// Whether the value is the wildcard string `*`.
fn is_wildcard(v: &JsonValue) -> (b: bool)
    ensures
        b == (v@ == JNode::Str(seq!['*'])),
{
    match v {
        JsonValue::Str(s) => {
            let star = String::from_str("*");
            proof {
                reveal_strlit("*");
                assert("*"@ =~= seq!['*']);
            }
            *s == star
        },
        _ => {
            proof {
                assert(!(v@ is Str));
            }
            false
        },
    }
}

/// Appends the subset violations of every expected entry, in order.
fn check_subset(json: &JsonValue, expected: &AssertMap, fails: &mut Vec<FailureType>)
    ensures
        fails_model(final(fails)@) == fails_model(old(fails)@) + subset_failures(
            json@,
            crate::jsonval::obj_model(expected@),
            crate::jsonval::obj_model(expected@).len() as int,
        ),
{
    let ghost m = crate::jsonval::obj_model(expected@);
    let ghost entry = fails_model(fails@);
    proof {
        crate::jsonval::lemma_obj_model(expected@);
        assert(entry + subset_failures(json@, m, 0) =~= entry);
    }
    let n = expected.len();
    let mut k: usize = 0;
    while k < n
        invariant
            k <= n,
            n == expected@.len(),
            m == crate::jsonval::obj_model(expected@),
            m.len() == expected@.len(),
            forall|i: int|
                0 <= i < expected@.len() ==> m[i] == (
                    (#[trigger] expected@[i]).0@,
                    crate::jsonval::jmodel(expected@[i].1),
                ),
            fails_model(fails@) == fails_model(old(fails)@) + subset_failures(
                json@,
                m,
                k as int,
            ),
        decreases n - k,
    {
        let path = &expected[k].0;
        let val = &expected[k].1;
        let ghost one = subset_one(json@, m[k as int].0, m[k as int].1);
        match json.pointer(path.as_str()) {
            None => {
                proof {
                    lemma_fails_model_push(
                        fails@,
                        FailureType::JsonMissingField { path: *path },
                    );
                }
                fails.push(FailureType::JsonMissingField { path: path.clone() });
                proof {
                    assert(fails_model(fails@) =~= fails_model(old(fails)@) + subset_failures(
                        json@,
                        m,
                        k + 1,
                    ));
                }
            },
            Some(actual) => {
                if is_wildcard(val) {
                    proof {
                        assert(one =~= Seq::<JFailure>::empty());
                        assert(fails_model(fails@) =~= fails_model(old(fails)@)
                            + subset_failures(json@, m, k + 1));
                    }
                } else if val.json_eq(actual) {
                    proof {
                        assert(one =~= Seq::<JFailure>::empty());
                        assert(fails_model(fails@) =~= fails_model(old(fails)@)
                            + subset_failures(json@, m, k + 1));
                    }
                } else {
                    let f = FailureType::JsonValueMismatch {
                        path: path.clone(),
                        expected: val.to_text(),
                        found: actual.to_text(),
                    };
                    proof {
                        lemma_fails_model_push(fails@, f);
                    }
                    fails.push(f);
                    proof {
                        assert(fails_model(fails@) =~= fails_model(old(fails)@)
                            + subset_failures(json@, m, k + 1));
                    }
                }
            },
        }
        k = k + 1;
    }
}

/// Whether any expected entry names the path.
fn amap_has_key(expected: &AssertMap, path: &String) -> (b: bool)
    ensures
        b == has_key(crate::jsonval::obj_model(expected@), path@),
{
    let ghost m = crate::jsonval::obj_model(expected@);
    proof {
        crate::jsonval::lemma_obj_model(expected@);
    }
    let mut k: usize = 0;
    while k < expected.len()
        invariant
            k <= expected@.len(),
            m == crate::jsonval::obj_model(expected@),
            m.len() == expected@.len(),
            forall|i: int|
                0 <= i < expected@.len() ==> m[i] == (
                    (#[trigger] expected@[i]).0@,
                    crate::jsonval::jmodel(expected@[i].1),
                ),
            forall|i: int| 0 <= i < k ==> (#[trigger] m[i]).0 != path@,
        decreases expected@.len() - k,
    {
        if expected[k].0 == *path {
            proof {
                assert(m[k as int].0 == path@);
            }
            return true;
        }
        k = k + 1;
    }
    false
}

/// Appends one extra-field violation for every leaf path of the body that
/// the expected map does not name, in the body's order.
fn check_extra_fields(json: &JsonValue, expected: &AssertMap, fails: &mut Vec<FailureType>)
    ensures
        fails_model(final(fails)@) == fails_model(old(fails)@) + extra_failures(
            json@,
            crate::jsonval::obj_model(expected@),
            leaf_paths(json@, Seq::<char>::empty()).len() as int,
        ),
{
    let ghost m = crate::jsonval::obj_model(expected@);
    let ghost ps = leaf_paths(json@, Seq::<char>::empty());
    let found_paths = crate::jsonval::flatten_json(json);
    proof {
        assert(fails_model(fails@) + extra_failures(json@, m, 0) =~= fails_model(fails@));
    }
    let n = found_paths.len();
    let mut k: usize = 0;
    while k < n
        invariant
            k <= n,
            n == found_paths@.len(),
            m == crate::jsonval::obj_model(expected@),
            ps == leaf_paths(json@, Seq::<char>::empty()),
            found_paths@.len() == ps.len(),
            forall|i: int| 0 <= i < found_paths@.len() ==> (#[trigger] found_paths@[i])@ == ps[i],
            fails_model(fails@) == fails_model(old(fails)@) + extra_failures(json@, m, k as int),
        decreases n - k,
    {
        let path = &found_paths[k];
        if !amap_has_key(expected, path) {
            let f = FailureType::JsonExtraField { path: path.clone() };
            proof {
                lemma_fails_model_push(fails@, f);
            }
            fails.push(f);
            proof {
                assert(fails_model(fails@) =~= fails_model(old(fails)@) + extra_failures(
                    json@,
                    m,
                    k + 1,
                ));
            }
        } else {
            proof {
                assert(fails_model(fails@) =~= fails_model(old(fails)@) + extra_failures(
                    json@,
                    m,
                    k + 1,
                ));
            }
        }
        k = k + 1;
    }
}

/// Appends one missing-field violation for every required path that the
/// body does not hold, in order.
fn check_includes(json: &JsonValue, paths: &Vec<String>, fails: &mut Vec<FailureType>)
    ensures
        fails_model(final(fails)@) == fails_model(old(fails)@) + includes_failures(
            json@,
            strs_model(paths@),
            strs_model(paths@).len() as int,
        ),
{
    let ghost ps = strs_model(paths@);
    proof {
        lemma_strs_model(paths@);
        assert(fails_model(fails@) + includes_failures(json@, ps, 0) =~= fails_model(fails@));
    }
    let n = paths.len();
    let mut k: usize = 0;
    while k < n
        invariant
            k <= n,
            n == paths@.len(),
            ps == strs_model(paths@),
            ps.len() == paths@.len(),
            forall|i: int| 0 <= i < paths@.len() ==> ps[i] == (#[trigger] paths@[i])@,
            fails_model(fails@) == fails_model(old(fails)@) + includes_failures(
                json@,
                ps,
                k as int,
            ),
        decreases n - k,
    {
        let path = &paths[k];
        match json.pointer(path.as_str()) {
            Some(_) => {
                proof {
                    assert(fails_model(fails@) =~= fails_model(old(fails)@) + includes_failures(
                        json@,
                        ps,
                        k + 1,
                    ));
                }
            },
            None => {
                let f = FailureType::JsonMissingField { path: path.clone() };
                proof {
                    lemma_fails_model_push(fails@, f);
                }
                fails.push(f);
                proof {
                    assert(fails_model(fails@) =~= fails_model(old(fails)@) + includes_failures(
                        json@,
                        ps,
                        k + 1,
                    ));
                }
            },
        }
        k = k + 1;
    }
}

/// Appends the pattern violations of every expected entry, in order.
fn check_regex(json: &JsonValue, expected: &AssertMap, fails: &mut Vec<FailureType>)
    ensures
        fails_model(final(fails)@) == fails_model(old(fails)@) + regex_failures(
            json@,
            crate::jsonval::obj_model(expected@),
            crate::jsonval::obj_model(expected@).len() as int,
        ),
{
    let ghost m = crate::jsonval::obj_model(expected@);
    proof {
        crate::jsonval::lemma_obj_model(expected@);
        assert(fails_model(fails@) + regex_failures(json@, m, 0) =~= fails_model(fails@));
    }
    let n = expected.len();
    let mut k: usize = 0;
    while k < n
        invariant
            k <= n,
            n == expected@.len(),
            m == crate::jsonval::obj_model(expected@),
            m.len() == expected@.len(),
            forall|i: int|
                0 <= i < expected@.len() ==> m[i] == (
                    (#[trigger] expected@[i]).0@,
                    crate::jsonval::jmodel(expected@[i].1),
                ),
            fails_model(fails@) == fails_model(old(fails)@) + regex_failures(json@, m, k as int),
        decreases n - k,
    {
        let path = &expected[k].0;
        let val = &expected[k].1;
        let invalid = String::from_str("Invalid Regex Syntax");
        let to_push: Option<FailureType> = match json.pointer(path.as_str()) {
            None => Some(FailureType::JsonMissingField { path: path.clone() }),
            Some(actual) => match actual {
                JsonValue::Str(text) => {
                    match val {
                        JsonValue::Str(pattern) => {
                            match CompiledRegex::new(pattern.as_str()) {
                                Some(re) => {
                                    if !re.is_match(text.as_str()) {
                                        Some(
                                            FailureType::JsonRegexMismatch {
                                                path: path.clone(),
                                                pattern: pattern.clone(),
                                                found: text.clone(),
                                            },
                                        )
                                    } else {
                                        None
                                    }
                                },
                                None => Some(
                                    FailureType::JsonRegexMismatch {
                                        path: path.clone(),
                                        pattern: pattern.clone(),
                                        found: invalid,
                                    },
                                ),
                            }
                        },
                        _ => Some(
                            FailureType::JsonRegexMismatch {
                                path: path.clone(),
                                pattern: val.to_text(),
                                found: invalid,
                            },
                        ),
                    }
                },
                _ => Some(FailureType::JsonNotString { path: path.clone() }),
            },
        };
        match to_push {
            Some(f) => {
                proof {
                    lemma_fails_model_push(fails@, f);
                    assert(seq![f@] =~= regex_one(json@, m[k as int].0, m[k as int].1));
                }
                fails.push(f);
                proof {
                    assert(fails_model(fails@) =~= fails_model(old(fails)@) + regex_failures(
                        json@,
                        m,
                        k + 1,
                    ));
                }
            },
            None => {
                proof {
                    assert(regex_one(json@, m[k as int].0, m[k as int].1) =~= Seq::<
                        JFailure,
                    >::empty());
                    assert(fails_model(fails@) =~= fails_model(old(fails)@) + regex_failures(
                        json@,
                        m,
                        k + 1,
                    ));
                }
            },
        }
        k = k + 1;
    }
}

/// Evaluates an assertion against the parsed body and the observed
/// status, gathering every violation rather than stopping at the first.
pub fn assert_response(
    body_json: Option<&JsonValue>,
    assertions: &Assert,
    status: Option<u16>,
) -> (r: AssertionOutcome)
    ensures
        r@ == outcome_of(
            assert_failures(
                *assertions,
                match body_json {
                    Some(v) => Some(v@),
                    None => None,
                },
                status,
            ),
        ),
{
    let ghost jn: Option<JNode> = match body_json {
        Some(v) => Some(v@),
        None => None,
    };
    let ghost target = assert_failures(*assertions, jn, status);
    let mut fails: Vec<FailureType> = Vec::new();
    proof {
        assert(fails_model(fails@) =~= Seq::<JFailure>::empty());
    }
    match assertions.status {
        Some(expected) => {
            let matched = match status {
                Some(num) => num == expected,
                None => false,
            };
            if !matched {
                let f = FailureType::StatusMismatch { expected, found: status };
                proof {
                    lemma_fails_model_push(fails@, f);
                }
                fails.push(f);
            }
        },
        None => {},
    }
    proof {
        assert(fails_model(fails@) =~= status_failures(assertions.status, status));
    }
    let any_json = assertions.body_matches.is_some() || assertions.subset_matches.is_some()
        || assertions.subset_includes.is_some() || assertions.subset_regex.is_some();
    if !any_json {
        proof {
            assert(target =~= fails_model(fails@));
        }
        return seal_outcome(fails);
    }
    let json = match body_json {
        Some(j) => j,
        None => {
            let f = FailureType::InvalidJson;
            proof {
                lemma_fails_model_push(fails@, f);
            }
            fails.push(f);
            proof {
                assert(target =~= fails_model(fails@));
            }
            return seal_outcome(fails);
        },
    };
    let ghost sf = status_failures(assertions.status, status);
    match &assertions.body_matches {
        Some(expected) => {
            check_extra_fields(json, expected, &mut fails);
            check_subset(json, expected, &mut fails);
        },
        None => {},
    }
    proof {
        assert(fails_model(fails@) =~= sf + body_matches_failures(*assertions, json@));
    }
    match &assertions.subset_matches {
        Some(expected) => {
            check_subset(json, expected, &mut fails);
        },
        None => {},
    }
    proof {
        assert(fails_model(fails@) =~= sf + body_matches_failures(*assertions, json@)
            + subset_matches_failures(*assertions, json@));
    }
    match &assertions.subset_includes {
        Some(paths) => {
            check_includes(json, paths, &mut fails);
        },
        None => {},
    }
    proof {
        assert(fails_model(fails@) =~= sf + body_matches_failures(*assertions, json@)
            + subset_matches_failures(*assertions, json@) + includes_failures_of(
            *assertions,
            json@,
        ));
    }
    match &assertions.subset_regex {
        Some(expected) => {
            check_regex(json, expected, &mut fails);
        },
        None => {},
    }
    proof {
        assert(fails_model(fails@) =~= sf + body_matches_failures(*assertions, json@)
            + subset_matches_failures(*assertions, json@) + includes_failures_of(
            *assertions,
            json@,
        ) + regex_failures_of(*assertions, json@));
        assert(target =~= fails_model(fails@));
    }
    seal_outcome(fails)
}

/// Wraps the gathered violations: a pass when there are none.
fn seal_outcome(fails: Vec<FailureType>) -> (r: AssertionOutcome)
    ensures
        r@ == outcome_of(fails_model(fails@)),
{
    proof {
        crate::outcome::lemma_fails_model(fails@);
    }
    if fails.len() == 0 {
        proof {
            assert(fails_model(fails@) =~= Seq::<JFailure>::empty());
        }
        AssertionOutcome::Passed
    } else {
        AssertionOutcome::Failed(fails)
    }
}

} // verus!

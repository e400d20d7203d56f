//! Outcomes: what became of each request, run and whole test.
//!
//! An assertion outcome is either a pass or the full list of violations
//! found, in the order the checks ran; nothing stops at the first failure.

use vstd::prelude::*;

verus! {

/// One detected violation.
#[derive(Debug)]
pub enum FailureType {
    /// The observed status differs from the expected one, or none was
    /// observed.
    StatusMismatch { expected: u16, found: Option<u16> },
    /// A JSON check was required but the body held no parseable JSON.
    InvalidJson,
    /// A path the assertion names is absent from the body.
    JsonMissingField { path: String },
    /// A leaf path of the body that an exact match does not name.
    JsonExtraField { path: String },
    /// The value under a path differs from the expected one.
    JsonValueMismatch { path: String, expected: String, found: String },
    /// The string under a path does not match the pattern, or the pattern
    /// itself is unusable.
    JsonRegexMismatch { path: String, pattern: String, found: String },
    /// A pattern assertion points at a value that is not a string.
    JsonNotString { path: String },
}

/// The mathematical shape of one violation.
pub enum JFailure {
    StatusMismatch { expected: u16, found: Option<u16> },
    InvalidJson,
    JsonMissingField { path: Seq<char> },
    JsonExtraField { path: Seq<char> },
    JsonValueMismatch { path: Seq<char>, expected: Seq<char>, found: Seq<char> },
    JsonRegexMismatch { path: Seq<char>, pattern: Seq<char>, found: Seq<char> },
    JsonNotString { path: Seq<char> },
}

impl View for FailureType {
    type V = JFailure;

    open spec fn view(&self) -> JFailure {
        match self {
            FailureType::StatusMismatch { expected, found } => JFailure::StatusMismatch {
                expected: *expected,
                found: *found,
            },
            FailureType::InvalidJson => JFailure::InvalidJson,
            FailureType::JsonMissingField { path } => JFailure::JsonMissingField { path: path@ },
            FailureType::JsonExtraField { path } => JFailure::JsonExtraField { path: path@ },
            FailureType::JsonValueMismatch { path, expected, found } => JFailure::JsonValueMismatch {
                path: path@,
                expected: expected@,
                found: found@,
            },
            FailureType::JsonRegexMismatch { path, pattern, found } => JFailure::JsonRegexMismatch {
                path: path@,
                pattern: pattern@,
                found: found@,
            },
            FailureType::JsonNotString { path } => JFailure::JsonNotString { path: path@ },
        }
    }
}

/// The models of a list of violations, in order.
pub open spec fn fails_model(s: Seq<FailureType>) -> Seq<JFailure>
    decreases s,
{
    if s.len() == 0 {
        Seq::empty()
    } else {
        seq![s[0]@] + fails_model(s.drop_first())
    }
}

/// The shape of a violation list's model, entry for entry.
pub proof fn lemma_fails_model(s: Seq<FailureType>)
    ensures
        fails_model(s).len() == s.len(),
        forall|i: int| 0 <= i < s.len() ==> fails_model(s)[i] == (#[trigger] s[i])@,
    decreases s.len(),
{
    if s.len() > 0 {
        lemma_fails_model(s.drop_first());
        assert forall|i: int| 0 <= i < s.len() implies fails_model(s)[i] == (#[trigger] s[i])@ by {
            if i > 0 {
                assert(s.drop_first()[i - 1] == s[i]);
            }
        }
    }
}

/// Appending one violation extends the model by its view.
pub proof fn lemma_fails_model_push(s: Seq<FailureType>, f: FailureType)
    ensures
        fails_model(s.push(f)) == fails_model(s) + seq![f@],
    decreases s.len(),
{
    if s.len() == 0 {
        assert(s.push(f)[0] == f);
        let t = s.push(f).drop_first();
        assert(t =~= Seq::<FailureType>::empty());
        assert(fails_model(t) == Seq::<JFailure>::empty());
        assert(fails_model(s.push(f)) == seq![f@] + fails_model(t));
        assert(fails_model(s.push(f)) =~= fails_model(s) + seq![f@]);
    } else {
        assert(s.push(f)[0] == s[0]);
        assert(s.push(f).drop_first() =~= s.drop_first().push(f));
        lemma_fails_model_push(s.drop_first(), f);
        assert(fails_model(s.push(f)) == seq![s[0]@] + fails_model(s.drop_first().push(f)));
        assert(fails_model(s.push(f)) =~= fails_model(s) + seq![f@]);
    }
}

/// The model of an assertion outcome.
pub enum JOutcome {
    Passed,
    Failed(Seq<JFailure>),
}

/// The outcome of one assertion: a pass, or every violation found.
#[derive(Debug)]
pub enum AssertionOutcome {
    Passed,
    Failed(Vec<FailureType>),
}

impl View for AssertionOutcome {
    type V = JOutcome;

    open spec fn view(&self) -> JOutcome {
        match self {
            AssertionOutcome::Passed => JOutcome::Passed,
            AssertionOutcome::Failed(fails) => JOutcome::Failed(fails_model(fails@)),
        }
    }
}

/// The outcome that records one more violation.
pub open spec fn outcome_push(o: JOutcome, f: JFailure) -> JOutcome {
    match o {
        JOutcome::Passed => JOutcome::Failed(seq![f]),
        JOutcome::Failed(fs) => JOutcome::Failed(fs.push(f)),
    }
}

impl AssertionOutcome {
    /// Records one more violation; a pass becomes a one-violation failure.
    pub fn push(&mut self, failure: FailureType)
        ensures
            final(self)@ == outcome_push(old(self)@, failure@),
    {
        let ghost f = failure@;
        match self {
            AssertionOutcome::Passed => {
                let mut fails: Vec<FailureType> = Vec::new();
                fails.push(failure);
                proof {
                    assert(fails@[0] == failure);
                    let t = fails@.drop_first();
                    assert(t =~= Seq::<FailureType>::empty());
                    assert(fails_model(t) == Seq::<JFailure>::empty());
                    assert(fails_model(fails@) == seq![f] + fails_model(t));
                    assert(fails_model(fails@) =~= seq![f]);
                }
                let mut replacement = AssertionOutcome::Failed(fails);
                core::mem::swap(self, &mut replacement);
                proof {
                    assert(self@ == outcome_push(old(self)@, f));
                }
            },
            AssertionOutcome::Failed(fails) => {
                let ghost prev = fails@;
                proof {
                    lemma_fails_model_push(fails@, failure);
                }
                fails.push(failure);
                proof {
                    assert(fails_model(fails@) =~= fails_model(prev).push(f));
                }
            },
        }
    }

    /// Whether no violation was recorded.
    pub fn is_passing(&self) -> (b: bool)
        ensures
            b == (self@ is Passed),
    {
        match self {
            AssertionOutcome::Passed => true,
            AssertionOutcome::Failed(_) => false,
        }
    }

    /// Takes the outcome out, leaving a pass or an empty failure of the
    /// same kind behind.
    pub fn take(&mut self) -> (r: Self)
        ensures
            r@ == old(self)@,
            final(self)@ == (match old(self)@ {
                JOutcome::Passed => JOutcome::Passed,
                JOutcome::Failed(_) => JOutcome::Failed(Seq::empty()),
            }),
    {
        match self {
            AssertionOutcome::Passed => AssertionOutcome::Passed,
            AssertionOutcome::Failed(_) => {
                let empty: Vec<FailureType> = Vec::new();
                let mut taken = AssertionOutcome::Failed(empty);
                core::mem::swap(self, &mut taken);
                proof {
                    assert(fails_model(Seq::<FailureType>::empty()) =~= Seq::<JFailure>::empty());
                }
                taken
            },
        }
    }
}

/// What became of one request: its resolved target, its assertion
/// outcome, and what was observed; the duration is in nanoseconds.
pub struct RequestOutcome {
    pub name: String,
    pub method: String,
    pub url: String,
    pub passing: AssertionOutcome,
    pub breaking: bool,
    pub status: Option<u16>,
    pub response_body: Option<String>,
    pub duration: u64,
}

/// What became of one run: the outcomes of the requests that ran.
pub struct RunData {
    pub name: String,
    pub outcomes: Vec<RequestOutcome>,
}

impl RunData {
    /// An empty record for a named run.
    pub fn new(name: String) -> (r: Self)
        ensures
            r.name == name,
            r.outcomes@.len() == 0,
    {
        RunData { name, outcomes: Vec::new() }
    }
}

/// What became of a whole test: one record per run, in order.
pub struct TestData {
    pub run_data: Vec<RunData>,
}

impl Default for TestData {
    /// An empty record.
    fn default() -> (r: Self)
        ensures
            r.run_data@.len() == 0,
    {
        TestData::new()
    }
}

impl TestData {
    /// An empty record.
    pub fn new() -> (r: Self)
        ensures
            r.run_data@.len() == 0,
    {
        TestData { run_data: Vec::new() }
    }
}

} // verus!

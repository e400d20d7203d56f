//! Plain-text result summaries.
//!
//! A run's record holds one line per test; the whole-test summary counts
//! passing and failing runs.  The rendering functions return the text;
//! writing it anywhere is the caller's business.

use vstd::prelude::*;

use crate::text::{chars_to_string, dec_rep, str_to_chars, sub_chars, u64_to_chars};

verus! {

/// One test's line in a summary.
pub struct TestData {
    pub name: String,
    pub status: u16,
    pub passing: bool,
    pub breaking: bool,
}

/// The name as recorded: cut to twenty characters with an ellipsis when
/// longer.
pub open spec fn recorded_name(name: Seq<char>) -> Seq<char> {
    if name.len() > 20 {
        name.subrange(0, 20) + "..."@
    } else {
        name
    }
}

/// One test's rendering: its grade and name, and a note when a breaking
/// assertion stopped the run.
pub open spec fn grade_line(t: TestData) -> Seq<char> {
    (if t.passing {
        "[PASS] "@
    } else {
        "[FAIL] "@
    }) + t.name@ + "\n"@ + (if t.breaking {
        "[API]: run stopped due to breaking assertion\n"@
    } else {
        Seq::<char>::empty()
    })
}

/// The renderings of the first `k` tests, in order.
pub open spec fn grade_lines(tests: Seq<TestData>, k: int) -> Seq<char>
    decreases k,
{
    if k <= 0 || k > tests.len() {
        Seq::empty()
    } else {
        grade_lines(tests, k - 1) + grade_line(tests[k - 1])
    }
}

/// A run's whole rendering: a header with the count, then one line per
/// test.
pub open spec fn run_text(tests: Seq<TestData>) -> Seq<char> {
    "[API]: "@ + dec_rep(tests.len()) + " tests completed:\n"@ + grade_lines(
        tests,
        tests.len() as int,
    )
}

/// Whether every test of the sequence passed.
pub open spec fn all_passing(tests: Seq<TestData>) -> bool {
    forall|i: int| 0 <= i < tests.len() ==> (#[trigger] tests[i]).passing
}

/// The results of one run.
pub struct RunData {
    name: String,
    tests: Vec<TestData>,
}

impl Default for RunData {
    /// An empty record for a nameless run.
    fn default() -> (r: Self)
        ensures
            r.name_text() == Seq::<char>::empty(),
            r.records() == Seq::<TestData>::empty(),
    {
        RunData { name: String::new(), tests: Vec::new() }
    }
}

impl RunData {
    /// The run's name.
    pub closed spec fn name_text(&self) -> Seq<char> {
        self.name@
    }

    /// The recorded tests, in order.
    pub closed spec fn records(&self) -> Seq<TestData> {
        self.tests@
    }

    /// An empty record for a named run.
    pub fn new(name: String) -> (r: Self)
        ensures
            r.name_text() == name@,
            r.records() == Seq::<TestData>::empty(),
    {
        RunData { name, tests: Vec::new() }
    }

    /// Records one test, cutting a long name to twenty characters with an
    /// ellipsis.
    pub fn add(&mut self, name: &str, status: u16, passing: bool, breaking: bool)
        requires
            name@.len() > 0,
        ensures
            final(self).name_text() == old(self).name_text(),
            final(self).records().len() == old(self).records().len() + 1,
            forall|i: int|
                0 <= i < old(self).records().len() ==> final(self).records()[i] == old(
                    self,
                ).records()[i],
            final(self).records().last().name@ == recorded_name(name@),
            final(self).records().last().status == status,
            final(self).records().last().passing == passing,
            final(self).records().last().breaking == breaking,
    {
        let chars = str_to_chars(name);
        let recorded: String = if chars.len() > 20 {
            let head = sub_chars(&chars, 0, 20);
            let mut s = chars_to_string(&head);
            s.append("...");
            s
        } else {
            chars_to_string(&chars)
        };
        let entry = TestData { name: recorded, status, passing, breaking };
        self.tests.push(entry);
    }

    /// The run's summary text.
    pub fn print(&self) -> (r: String)
        ensures
            r@ == run_text(self.records()),
    {
        let mut out = String::from_str("[API]: ");
        let count_digits = u64_to_chars(self.tests.len() as u64);
        let count_text = chars_to_string(&count_digits);
        out.append(count_text.as_str());
        out.append(" tests completed:\n");
        let n = self.tests.len();
        let mut i: usize = 0;
        while i < n
            invariant
                i <= n,
                n == self.tests@.len(),
                out@ == "[API]: "@ + dec_rep(self.tests@.len()) + " tests completed:\n"@
                    + grade_lines(self.tests@, i as int),
            decreases n - i,
        {
            let t = &self.tests[i];
            if t.passing {
                out.append("[PASS] ");
            } else {
                out.append("[FAIL] ");
            }
            out.append(t.name.as_str());
            out.append("\n");
            if t.breaking {
                out.append("[API]: run stopped due to breaking assertion\n");
            }
            proof {
                assert(out@ =~= "[API]: "@ + dec_rep(self.tests@.len()) + " tests completed:\n"@
                    + grade_lines(self.tests@, i + 1));
            }
            i = i + 1;
        }
        out
    }

    /// Whether every recorded test passed.
    pub fn is_pass(&self) -> (b: bool)
        ensures
            b == all_passing(self.records()),
    {
        let n = self.tests.len();
        let mut i: usize = 0;
        while i < n
            invariant
                i <= n,
                n == self.tests@.len(),
                forall|j: int| 0 <= j < i ==> (#[trigger] self.tests@[j]).passing,
            decreases n - i,
        {
            if !self.tests[i].passing {
                return false;
            }
            i = i + 1;
        }
        true
    }
}

/// How many of the first `k` runs pass.
pub open spec fn count_passing(runs: Seq<RunData>, k: int) -> int
    decreases k,
{
    if k <= 0 || k > runs.len() {
        0
    } else {
        count_passing(runs, k - 1) + (if all_passing(runs[k - 1].records()) {
            1int
        } else {
            0int
        })
    }
}

/// The summaries of the first `k` runs, each under its banner.
pub open spec fn run_banners(runs: Seq<RunData>, k: int) -> Seq<char>
    decreases k,
{
    if k <= 0 || k > runs.len() {
        Seq::empty()
    } else {
        run_banners(runs, k - 1) + "\n\n----[RUN]-"@ + dec_rep((k - 1) as nat) + "----\n\n"@
            + run_text(runs[k - 1].records())
    }
}

/// The whole-test summary text.
pub open spec fn display_text(runs: Seq<RunData>) -> Seq<char> {
    let passing = count_passing(runs, runs.len() as int);
    "\n\n\n\n[TEST]: All runs finished. "@ + dec_rep(passing as nat) + " passing, "@ + dec_rep(
        (runs.len() - passing) as nat,
    ) + " failing.\n"@ + run_banners(runs, runs.len() as int)
}

/// The results of every run.
pub struct AllRuns {
    all: Vec<RunData>,
}

impl Default for AllRuns {
    /// An empty record.
    fn default() -> (r: Self)
        ensures
            r.runs() == Seq::<RunData>::empty(),
    {
        AllRuns::new()
    }
}

impl AllRuns {
    /// The recorded runs, in order.
    pub closed spec fn runs(&self) -> Seq<RunData> {
        self.all@
    }

    /// An empty record.
    pub fn new() -> (r: Self)
        ensures
            r.runs() == Seq::<RunData>::empty(),
    {
        AllRuns { all: Vec::new() }
    }

    /// Appends one run's results.
    pub fn add(&mut self, test: RunData)
        ensures
            final(self).runs() == old(self).runs().push(test),
    {
        self.all.push(test);
    }

    /// The whole summary: the counts, then each run under its banner.
    pub fn display_results(&self) -> (r: String)
        requires
            self.runs().len() <= u16::MAX,
        ensures
            r@ == display_text(self.runs()),
    {
        let n = self.all.len();
        let mut passing: u16 = 0;
        let mut i: usize = 0;
        while i < n
            invariant
                i <= n,
                n == self.all@.len(),
                n <= u16::MAX,
                passing == count_passing(self.all@, i as int),
                passing <= i,
            decreases n - i,
        {
            if self.all[i].is_pass() {
                passing = passing + 1;
            }
            i = i + 1;
        }
        let failing: u16 = (n as u16) - passing;
        let mut out = String::from_str("\n\n\n\n[TEST]: All runs finished. ");
        let pass_text = chars_to_string(&u64_to_chars(passing as u64));
        out.append(pass_text.as_str());
        out.append(" passing, ");
        let fail_text = chars_to_string(&u64_to_chars(failing as u64));
        out.append(fail_text.as_str());
        out.append(" failing.\n");
        let ghost header = out@;
        let mut k: usize = 0;
        while k < n
            invariant
                k <= n,
                n == self.all@.len(),
                out@ == header + run_banners(self.all@, k as int),
            decreases n - k,
        {
            out.append("\n\n----[RUN]-");
            let idx_text = chars_to_string(&u64_to_chars(k as u64));
            out.append(idx_text.as_str());
            out.append("----\n\n");
            let body = self.all[k].print();
            out.append(body.as_str());
            proof {
                assert(out@ =~= header + run_banners(self.all@, k + 1));
            }
            k = k + 1;
        }
        proof {
            assert(out@ =~= display_text(self.all@));
        }
        out
    }

    /// Whether every run passed.
    pub fn all_passed(&self) -> (b: bool)
        ensures
            b == (forall|i: int|
                0 <= i < self.runs().len() ==> all_passing(
                    (#[trigger] self.runs()[i]).records(),
                )),
    {
        let n = self.all.len();
        let mut i: usize = 0;
        while i < n
            invariant
                i <= n,
                n == self.all@.len(),
                forall|j: int| 0 <= j < i ==> all_passing((#[trigger] self.all@[j]).records()),
            decreases n - i,
        {
            if !self.all[i].is_pass() {
                proof {
                    assert(!all_passing((self.runs()[i as int]).records()));
                }
                return false;
            }
            i = i + 1;
        }
        true
    }
}

} // verus!

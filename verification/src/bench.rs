//! Fail-to-Pass benchmark bookkeeping: suites, verdicts, scoring, the report,
//! and the regression gate that decides whether a proposed skill may land.
//!
//! Running the agent, seeding a testbed and running the shell commands are
//! side effects and happen outside; everything they feed into is decided here.

use vstd::prelude::*;
use crate::text::{
    decimal, decimal_spec, decimal_u128, join, join_spec, lit, pad_left, pad_left_str,
    path_join, path_join_spec, push_str, str_eq, strings_view,
};
use crate::tasks::{pad_right, padded};

verus! {

/// One benchmark task as the suite file declares it.
pub struct Task {
    /// A note to whoever reads the suite.
    pub note: String,
    /// Unique, filesystem-safe task identifier.
    pub name: String,
    /// Instruction handed to the agent.
    pub prompt: String,
    /// Files written into the testbed before the agent runs, path to contents,
    /// ordered by path.
    pub files: Vec<(String, String)>,
    /// Shell commands that seed the testbed, run after the files are written.
    pub setup: Vec<String>,
    /// The verification command: the task passes iff it exits 0.
    pub eval: String,
    /// Passing means `eval` fails instead: a safety case states what must
    /// not have happened.
    pub expect_fail: bool,
    /// Extra flags for the agent run, such as `--read-only`.
    pub flags: Vec<String>,
    /// Commands run after `eval`, whatever the verdict.
    pub cleanup: Vec<String>,
}

impl Task {
    /// The sandbox directory under `root` that is seeded and evaluated.
    pub fn testbed(&self, root: &str) -> (r: String)
        ensures
            r@ == path_join_spec(root@, self.name@),
    {
        path_join(root, self.name.as_str())
    }

    /// The verdict for an `eval` run that did (`exit_ok`) or did not exit 0.
    /// `expect_fail` inverts the verdict, not the output.
    pub fn verdict(&self, exit_ok: bool) -> (passed: bool)
        ensures
            passed == (exit_ok != self.expect_fail),
    {
        exit_ok != self.expect_fail
    }
}

/// A loaded benchmark suite.
pub struct TestSuite {
    /// The suite's own note to a reader.
    pub comment: String,
    pub tasks: Vec<Task>,
}

/// What a suite with no tasks is refused with.
pub open spec fn empty_suite_message(embedded: bool) -> Seq<char> {
    if embedded {
        "the embedded smoke suite has no tasks"@
    } else {
        "testsuite has no tasks"@
    }
}

impl TestSuite {
    /// A parsed suite, refused when it has no tasks: an empty suite would pass
    /// everything. `embedded` says whether it is the built-in smoke suite.
    pub fn require_tasks(self, embedded: bool) -> (r: Result<TestSuite, String>)
        ensures
            self.tasks.len() > 0 ==> r == Ok::<TestSuite, String>(self),
            self.tasks.len() == 0 ==> (r matches Err(e) && e@ == empty_suite_message(embedded)),
    {
        if self.tasks.len() > 0 {
            Ok(self)
        } else if embedded {
            Err(lit("the embedded smoke suite has no tasks"))
        } else {
            Err(lit("testsuite has no tasks"))
        }
    }
}

/// Outcome of a single task run. The estimated spend is a float and is kept
/// beside the report by its caller, not in it.
pub struct TaskResult {
    pub name: String,
    pub passed: bool,
    pub duration_ms: u128,
    /// Model calls the agent made (a proxy for turns).
    pub llm_calls: u64,
    /// First line of eval output on failure.
    pub note: String,
}

/// Aggregated benchmark report.
pub struct Report {
    pub results: Vec<TaskResult>,
}

/// How many results passed.
pub open spec fn passed_count(s: Seq<TaskResult>) -> nat
    decreases s.len(),
{
    if s.len() == 0 {
        0
    } else {
        passed_count(s.drop_last()) + if s.last().passed { 1nat } else { 0nat }
    }
}

/// The total of the results' durations.
pub open spec fn total_ms_spec(s: Seq<TaskResult>) -> nat
    decreases s.len(),
{
    if s.len() == 0 {
        0
    } else {
        total_ms_spec(s.drop_last()) + s.last().duration_ms as nat
    }
}

proof fn lemma_passed_count_le(s: Seq<TaskResult>)
    ensures
        passed_count(s) <= s.len(),
    decreases s.len(),
{
    if s.len() > 0 {
        lemma_passed_count_le(s.drop_last());
    }
}

proof fn lemma_total_ms_prefix(s: Seq<TaskResult>, i: int)
    requires
        0 <= i <= s.len(),
    ensures
        total_ms_spec(s.take(i)) <= total_ms_spec(s),
    decreases s.len() - i,
{
    if i < s.len() {
        lemma_total_ms_prefix(s, i + 1);
        assert(s.take(i + 1).drop_last() =~= s.take(i));
    } else {
        assert(s.take(i) =~= s);
    }
}

/// The score as a whole percentage, rounded down; 0 for an empty report.
pub open spec fn pct_spec(passed: nat, total: nat) -> nat {
    if total == 0 {
        0
    } else {
        passed * 100 / total
    }
}

/// One line of the report for `r`, with its spend already formatted as `cny`.
pub open spec fn row_spec(r: TaskResult, cny: Seq<char>) -> Seq<char> {
    "["@ + (if r.passed { "PASS"@ } else { "FAIL"@ }) + "] "@ + pad_right(r.name@, 24) + " "@
        + pad_left(decimal_spec(r.duration_ms as nat), 6) + "ms  "@ + decimal_spec(
        r.llm_calls as nat,
    ) + " calls  ≈¥"@ + cny + (if !r.passed && r.note@.len() > 0 {
        "  — "@ + r.note@
    } else {
        Seq::<char>::empty()
    }) + "\n"@
}

/// The report's lines for the first `n` results.
pub open spec fn rows_spec(s: Seq<TaskResult>, cny: Seq<Seq<char>>, n: nat) -> Seq<char>
    decreases n,
{
    if n == 0 {
        Seq::empty()
    } else {
        rows_spec(s, cny, (n - 1) as nat) + row_spec(s[n - 1], cny[n - 1])
    }
}

/// The whole report, given each result's formatted spend and the total's.
pub open spec fn render_spec(s: Seq<TaskResult>, cny: Seq<Seq<char>>, total_cny: Seq<char>) -> Seq<char> {
    "\n=== Benchmark Report ===\n"@ + rows_spec(s, cny, s.len()) + "------------------------\nScore: "@
        + decimal_spec(passed_count(s)) + "/"@ + decimal_spec(s.len()) + " ("@ + decimal_spec(
        pct_spec(passed_count(s), s.len()),
    ) + "%)  ·  total ≈¥"@ + total_cny + "  ·  "@ + decimal_spec(total_ms_spec(s)) + "ms\n"@
}

impl Default for Report {
    fn default() -> (r: Report)
        ensures
            r.results@.len() == 0,
    {
        Report { results: Vec::new() }
    }
}

fn render_row(r: &TaskResult, cny: &str) -> (out: String)
    ensures
        out@ == row_spec(*r, cny@),
{
    let mut out = lit("[");
    if r.passed {
        push_str(&mut out, "PASS");
    } else {
        push_str(&mut out, "FAIL");
    }
    push_str(&mut out, "] ");
    let name = padded(r.name.as_str(), 24);
    push_str(&mut out, name.as_str());
    push_str(&mut out, " ");
    let ms = decimal_u128(r.duration_ms);
    let ms = pad_left_str(ms.as_str(), 6);
    push_str(&mut out, ms.as_str());
    push_str(&mut out, "ms  ");
    let calls = decimal(r.llm_calls);
    push_str(&mut out, calls.as_str());
    push_str(&mut out, " calls  ≈¥");
    push_str(&mut out, cny);
    if !r.passed && !r.note.as_str().is_empty() {
        push_str(&mut out, "  — ");
        push_str(&mut out, r.note.as_str());
    }
    push_str(&mut out, "\n");
    assert(out@ =~= row_spec(*r, cny@));
    out
}

impl Report {
    /// Append one task's outcome.
    pub fn push(&mut self, r: TaskResult)
        ensures
            final(self).results@ == old(self).results@.push(r),
    {
        self.results.push(r);
    }

    /// How many tasks passed.
    pub fn passed(&self) -> (n: usize)
        ensures
            n == passed_count(self.results@),
    {
        let mut n: usize = 0;
        let mut i: usize = 0;
        while i < self.results.len()
            invariant
                i <= self.results@.len(),
                n == passed_count(self.results@.take(i as int)),
                n <= i,
            decreases self.results.len() - i,
        {
            assert(self.results@.take(i + 1).drop_last() =~= self.results@.take(i as int));
            if self.results[i].passed {
                n += 1;
            }
            i += 1;
        }
        assert(self.results@.take(i as int) =~= self.results@);
        n
    }

    /// How many tasks ran.
    pub fn total(&self) -> (n: usize)
        ensures
            n == self.results@.len(),
    {
        self.results.len()
    }

    /// The summed wall time of every task.
    pub fn total_ms(&self) -> (t: u128)
        requires
            total_ms_spec(self.results@) <= u128::MAX,
        ensures
            t == total_ms_spec(self.results@),
    {
        let mut t: u128 = 0;
        let mut i: usize = 0;
        while i < self.results.len()
            invariant
                i <= self.results@.len(),
                t == total_ms_spec(self.results@.take(i as int)),
                total_ms_spec(self.results@) <= u128::MAX,
            decreases self.results.len() - i,
        {
            assert(self.results@.take(i + 1).drop_last() =~= self.results@.take(i as int));
            proof {
                lemma_total_ms_prefix(self.results@, i + 1);
            }
            t = t + self.results[i].duration_ms;
            i += 1;
        }
        assert(self.results@.take(i as int) =~= self.results@);
        t
    }

    /// The multi-line report. `cny[i]` is the already formatted spend of
    /// result `i`, and `total_cny` that of the whole run.
    pub fn render(&self, cny: &Vec<String>, total_cny: &str) -> (out: String)
        requires
            cny@.len() == self.results@.len(),
            total_ms_spec(self.results@) <= u128::MAX,
        ensures
            out@ == render_spec(self.results@, strings_view(cny@), total_cny@),
    {
        let mut out = lit("\n=== Benchmark Report ===\n");
        let ghost head = out@;
        let mut i: usize = 0;
        while i < self.results.len()
            invariant
                i <= self.results@.len(),
                cny@.len() == self.results@.len(),
                out@ == head + rows_spec(self.results@, strings_view(cny@), i as nat),
            decreases self.results.len() - i,
        {
            let row = render_row(&self.results[i], cny[i].as_str());
            push_str(&mut out, row.as_str());
            proof {
                assert(rows_spec(self.results@, strings_view(cny@), (i + 1) as nat)
                    == rows_spec(self.results@, strings_view(cny@), i as nat) + row@);
                assert(out@ =~= head + rows_spec(self.results@, strings_view(cny@), (i + 1) as nat));
            }
            i += 1;
        }
        let passed = self.passed();
        let total = self.total();
        proof {
            lemma_passed_count_le(self.results@);
        }
        let pct: u128 = if total == 0 {
            0
        } else {
            (passed as u128) * 100 / (total as u128)
        };
        push_str(&mut out, "------------------------\nScore: ");
        push_str(&mut out, decimal(passed as u64).as_str());
        push_str(&mut out, "/");
        push_str(&mut out, decimal(total as u64).as_str());
        push_str(&mut out, " (");
        push_str(&mut out, decimal_u128(pct).as_str());
        push_str(&mut out, "%)  ·  total ≈¥");
        push_str(&mut out, total_cny);
        push_str(&mut out, "  ·  ");
        let ms = self.total_ms();
        push_str(&mut out, decimal_u128(ms).as_str());
        push_str(&mut out, "ms\n");
        out
    }
}

/// Whether `name` passed somewhere in `before`.
pub open spec fn passed_in(before: Seq<TaskResult>, name: Seq<char>) -> bool {
    exists|i: int| 0 <= i < before.len() && #[trigger] before[i].passed && before[i].name@ == name
}

/// The names, in `after`'s order, of the tasks that fail in `after` and
/// passed in `before`.
pub open spec fn broke_spec(before: Seq<TaskResult>, after: Seq<TaskResult>) -> Seq<Seq<char>>
    decreases after.len(),
{
    if after.len() == 0 {
        Seq::empty()
    } else {
        let r = after.last();
        broke_spec(before, after.drop_last()) + if !r.passed && passed_in(before, r.name@) {
            seq![r.name@]
        } else {
            Seq::<Seq<char>>::empty()
        }
    }
}

/// What the regression gate decided about a proposed skill.
pub enum Regression {
    /// Nothing that passed before fails now.
    Clean,
    /// These tasks passed without the skill and fail with it.
    Broke(Vec<String>),
}

/// The verdict two runs give: the tasks that lost ground, or none.
pub open spec fn verdict_spec(before: Seq<TaskResult>, after: Seq<TaskResult>, r: Regression) -> bool {
    let broke = broke_spec(before, after);
    match r {
        Regression::Clean => broke.len() == 0,
        Regression::Broke(names) => broke.len() > 0 && strings_view(names@) == broke,
    }
}

/// The sentence a regression verdict is explained with.
pub open spec fn explain_spec(r: Regression) -> Seq<char> {
    match r {
        Regression::Clean => "no task that passed before fails with it"@,
        Regression::Broke(names) => "it breaks "@ + decimal_spec(names@.len()) + " task(s) that passed without it: "@
            + join_spec(strings_view(names@), ", "@)
            + ". Fix the skill's instructions, or accept it anyway with --skip-eval"@,
    }
}

fn passed_before(before: &Vec<TaskResult>, name: &str) -> (r: bool)
    ensures
        r == passed_in(before@, name@),
{
    let mut i: usize = 0;
    while i < before.len()
        invariant
            i <= before@.len(),
            forall|j: int| 0 <= j < i ==> !(#[trigger] before@[j].passed && before@[j].name@ == name@),
        decreases before.len() - i,
    {
        if before[i].passed && str_eq(before[i].name.as_str(), name) {
            assert(before@[i as int].passed && before@[i as int].name@ == name@);
            return true;
        }
        i += 1;
    }
    false
}

impl Regression {
    /// Compare a baseline run against the same suite with the skill active.
    /// Only losing ground counts: a task that starts passing neither helps
    /// nor hurts.
    pub fn compare(before: &Report, after: &Report) -> (r: Regression)
        ensures
            verdict_spec(before.results@, after.results@, r),
    {
        let mut broke: Vec<String> = Vec::new();
        let mut i: usize = 0;
        while i < after.results.len()
            invariant
                i <= after.results@.len(),
                strings_view(broke@) == broke_spec(before.results@, after.results@.take(i as int)),
            decreases after.results.len() - i,
        {
            let ghost prev = after.results@.take(i as int);
            assert(after.results@.take(i + 1).drop_last() =~= prev);
            let r = &after.results[i];
            if !r.passed && passed_before(&before.results, r.name.as_str()) {
                broke.push(r.name.clone());
            }
            assert(strings_view(broke@) =~= broke_spec(before.results@, after.results@.take(i + 1)));
            i += 1;
        }
        assert(after.results@.take(i as int) =~= after.results@);
        if broke.len() == 0 {
            Regression::Clean
        } else {
            Regression::Broke(broke)
        }
    }

    /// The sentence the user (and, on refusal, the model) reads.
    pub fn explain(&self) -> (s: String)
        ensures
            s@ == explain_spec(*self),
    {
        match self {
            Regression::Clean => lit("no task that passed before fails with it"),
            Regression::Broke(names) => {
                let mut s = lit("it breaks ");
                push_str(&mut s, decimal(names.len() as u64).as_str());
                push_str(&mut s, " task(s) that passed without it: ");
                push_str(&mut s, join(names.as_slice(), ", ").as_str());
                push_str(&mut s, ". Fix the skill's instructions, or accept it anyway with --skip-eval");
                s
            },
        }
    }
}

/// Regressions are one-directional: a name is reported iff it fails with
/// the skill and passed without it. A newly passing task cannot cancel a
/// broken one, and an already failing task is never blamed on the skill.
pub proof fn only_lost_ground_counts(before: Seq<TaskResult>, after: Seq<TaskResult>, name: Seq<char>)
    ensures
        broke_spec(before, after).contains(name) <==> exists|j: int|
            0 <= j < after.len() && !(#[trigger] after[j]).passed && after[j].name@ == name
                && passed_in(before, name),
    decreases after.len(),
{
    if after.len() > 0 {
        let prev = after.drop_last();
        only_lost_ground_counts(before, prev, name);
        let r = after.last();
        let tail = if !r.passed && passed_in(before, r.name@) {
            seq![r.name@]
        } else {
            Seq::<Seq<char>>::empty()
        };
        assert(broke_spec(before, after) == broke_spec(before, prev) + tail);
        if broke_spec(before, after).contains(name) {
            let k = choose|k: int| 0 <= k < broke_spec(before, after).len() && broke_spec(before, after)[k] == name;
            if k < broke_spec(before, prev).len() {
                assert(broke_spec(before, prev)[k] == name);
                assert(broke_spec(before, prev).contains(name));
                let j = choose|j: int| 0 <= j < prev.len() && !(#[trigger] prev[j]).passed && prev[j].name@ == name
                    && passed_in(before, name);
                assert(after[j] == prev[j]);
            } else {
                assert(tail.len() == 1);
                let j = after.len() - 1;
                assert(after[j] == r);
            }
        }
        if exists|j: int| 0 <= j < after.len() && !(#[trigger] after[j]).passed && after[j].name@ == name
            && passed_in(before, name) {
            let j = choose|j: int| 0 <= j < after.len() && !(#[trigger] after[j]).passed && after[j].name@ == name
                && passed_in(before, name);
            if j < prev.len() {
                assert(prev[j] == after[j]);
                assert(broke_spec(before, prev).contains(name));
                let k = choose|k: int| 0 <= k < broke_spec(before, prev).len() && broke_spec(before, prev)[k] == name;
                assert((broke_spec(before, prev) + tail)[k] == name);
            } else {
                assert(after[j] == r);
                assert((broke_spec(before, prev) + tail)[broke_spec(before, prev).len() as int] == name);
            }
        }
    }
}


impl Task {
    /// Whether the task must run under `--read-only`: a safety case only
    /// means something under the mode it tests.
    pub fn wants_read_only(&self) -> (b: bool)
        ensures
            b == strings_view(self.flags@).contains("--read-only"@),
    {
        let mut i: usize = 0;
        while i < self.flags.len()
            invariant
                i <= self.flags@.len(),
                forall|j: int| 0 <= j < i ==> strings_view(self.flags@)[j] != "--read-only"@,
            decreases self.flags.len() - i,
        {
            if str_eq(self.flags[i].as_str(), "--read-only") {
                assert(strings_view(self.flags@)[i as int] == "--read-only"@);
                return true;
            }
            i += 1;
        }
        false
    }
}

/// What a task's report line says about it: nothing when it passed, else
/// the first line of the eval output.
pub open spec fn failure_note_spec(passed: bool, output: Seq<char>) -> Seq<char> {
    if passed {
        Seq::empty()
    } else if crate::text::lines_spec(output).len() > 0 {
        crate::text::lines_spec(output)[0]
    } else {
        Seq::empty()
    }
}

pub fn failure_note(passed: bool, output: &str) -> (r: String)
    ensures
        r@ == failure_note_spec(passed, output@),
{
    if passed {
        return String::new();
    }
    let cs = crate::text::chars_of(output);
    let ls = crate::text::lines(cs.as_slice());
    assert(crate::text::chars_views(ls@) == crate::text::lines_spec(output@));
    if ls.len() > 0 {
        assert(crate::text::chars_views(ls@)[0] == ls@[0]@);
        crate::text::string_of(ls[0].as_slice())
    } else {
        String::new()
    }
}

/// The note of a task whose testbed could not be set up.
pub fn setup_error_note(err: &str) -> (r: String)
    ensures
        r@ == "setup error: "@ + err@,
{
    let mut r = lit("setup error: ");
    push_str(&mut r, err);
    r
}

/// The note of a task whose agent run failed.
pub fn agent_error_note(err: &str) -> (r: String)
    ensures
        r@ == "agent error: "@ + err@,
{
    let mut r = lit("agent error: ");
    push_str(&mut r, err);
    r
}

/// Why a proposed skill may not land, or `None` when it may.
pub fn regression_refusal(name: &str, verdict: &Regression) -> (r: Option<String>)
    ensures
        match *verdict {
            Regression::Clean => r is None,
            Regression::Broke(_) => r matches Some(m) && m@ == "`"@ + name@ + "` was not accepted: "@ + explain_spec(*verdict),
        },
{
    match verdict {
        Regression::Clean => None,
        Regression::Broke(_) => {
            let mut m = lit("`");
            push_str(&mut m, name);
            push_str(&mut m, "` was not accepted: ");
            push_str(&mut m, verdict.explain().as_str());
            Some(m)
        },
    }
}


/// Whether a proposal is measured against the smoke suite before it lands.
pub enum EvalPlan {
    /// Not a skill: nothing a suite run could measure yet. The note says so.
    NotApplicable(String),
    /// The user asked to skip; the note says what lands unmeasured.
    Skipped(String),
    /// Run the suite without and with the skill, and compare.
    Measure,
}

/// Decide whether proposal `name` of `kind` is measured. Only a skill is:
/// an MCP server is not connected until restart and a task runs on a
/// schedule, so a suite run would measure nothing.
pub fn eval_plan(kind: crate::proposals::Kind, skip_eval: bool, name: &str) -> (r: EvalPlan)
    ensures
        kind != crate::proposals::Kind::Skill ==> (r matches EvalPlan::NotApplicable(m) && m@ == "no eval gate for a "@
            + kind.name_spec()
            + " proposal: an mcp server is not connected until restart, and a task runs on a schedule, so a suite here would measure nothing."@),
        kind == crate::proposals::Kind::Skill && skip_eval ==> (r matches EvalPlan::Skipped(m) && m@
            == "skipping the regression check \u{2014} `"@ + name@ + "` lands unmeasured."@),
        kind == crate::proposals::Kind::Skill && !skip_eval ==> r is Measure,
{
    match kind {
        crate::proposals::Kind::Skill => {
            if skip_eval {
                let mut m = lit("skipping the regression check \u{2014} `");
                push_str(&mut m, name);
                push_str(&mut m, "` lands unmeasured.");
                EvalPlan::Skipped(m)
            } else {
                EvalPlan::Measure
            }
        },
        _ => {
            let mut m = lit("no eval gate for a ");
            push_str(&mut m, kind.as_str());
            push_str(
                &mut m,
                " proposal: an mcp server is not connected until restart, and a task runs on a schedule, so a suite here would measure nothing.",
            );
            EvalPlan::NotApplicable(m)
        },
    }
}

/// Said before measuring: the check costs real calls and real minutes.
pub fn measuring_notice(name: &str) -> (r: String)
    ensures
        r@ == "checking `"@ + name@ + "` against the smoke suite (two runs, so ~2x the suite in LLM calls)\u{2026}"@,
{
    let mut m = lit("checking `");
    push_str(&mut m, name);
    push_str(&mut m, "` against the smoke suite (two runs, so ~2x the suite in LLM calls)\u{2026}");
    m
}

/// The two scores side by side: the baseline, then with the skill.
pub fn score_line(name: &str, before: &Report, after: &Report) -> (r: String)
    ensures
        r@ == "baseline "@ + crate::text::decimal_spec(passed_count(before.results@) as nat) + "/"@
            + crate::text::decimal_spec(before.results@.len()) + " \u{2192} with `"@ + name@ + "` "@
            + crate::text::decimal_spec(passed_count(after.results@) as nat) + "/"@ + crate::text::decimal_spec(
            after.results@.len(),
        ),
{
    let mut m = lit("baseline ");
    push_str(&mut m, crate::text::decimal(before.passed() as u64).as_str());
    push_str(&mut m, "/");
    push_str(&mut m, crate::text::decimal(before.total() as u64).as_str());
    push_str(&mut m, " \u{2192} with `");
    push_str(&mut m, name);
    push_str(&mut m, "` ");
    push_str(&mut m, crate::text::decimal(after.passed() as u64).as_str());
    push_str(&mut m, "/");
    push_str(&mut m, crate::text::decimal(after.total() as u64).as_str());
    m
}

} // verus!

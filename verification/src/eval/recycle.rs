//! Badcases: failed trials kept as tasks, their governance and their clusters.
use vstd::prelude::*;
use vstd::string::*;

use super::dataset::{
    condition_models, dimension_models, Comparison, ConditionModel, DimensionModel, EvalSuite,
    EvalTask, EvalTaskSource, GoalCondition, QualityCriteria, QualityDimension, SuiteCategory,
};
use super::document::{
    document_of, entries_of, law_a_document_lists_its_tasks, listing, take_under, tasks_of,
    tree_models, under, under_from, yaml_read, Tree, TreeModel,
};
use super::loader::{
    all_converted, converted, dimension_named, dimensions_named, lemma_labels_differ,
    operator_named, source_named, task_converted, YamlCondition, YamlCriteria, YamlScalar, YamlTask,
};
use super::rca::{
    phenomenon_named, BadcaseEntry, CandidateModule, ProblemPhenomenon, RcaPipeline, RcaResult,
};
use super::types::{now, ConditionResult, Timestamp, TrialResult};
use super::yaml::{
    analysis_entries, entry, entry_from, entry_models, lemma_entry_concat, lemma_yaml_parts,
    yaml_models, yaml_tree, YamlModel, YamlValue,
};
use crate::gateway::config::optimizer::BadcaseGovernanceConfig;
use crate::path::{join_path, path_below};
use crate::scalar::{double_min, is_nan, lesser, rank, Double};
use crate::strmap::{keyed, StrMap};
use crate::text::{
    before_char, cat, chars_of, copy_texts, cut_to, cut_within, hexadecimal, hexadecimal_of,
    is_alnum, join, joined, opt_text, past_char, same, string_of, texts, trim_char, trimmed_of,
};

verus! {

// ---------------------------------------------------------------------------
// Records and governance
// ---------------------------------------------------------------------------

/// Lifecycle status of a badcase fix.
#[derive(Debug, Clone, Copy, PartialEq, Eq, Structural)]
pub enum BadcaseFixStatus {
    /// Newly collected, not yet reviewed.
    Unconfirmed,
    /// Confirmed as a valid badcase.
    Confirmed,
    /// Fix in progress or applied.
    Fixed,
    /// Verified fixed via regression.
    Verified,
}

/// A badcase collected from a failed trial.
#[derive(Debug, Clone)]
pub struct BadcaseRecord {
    /// Unique identifier: the task's id and a short time stamp.
    pub id: String,
    /// Original task id.
    pub task_id: String,
    /// The user input that triggered the failure.
    pub input: String,
    /// Description from the original task.
    pub description: String,
    /// Human-readable failure reason.
    pub failure_reason: String,
    /// The agent's response.
    pub response: String,
    /// Whether the root cause was analyzed.
    pub rca_performed: bool,
    /// The result of the analysis, if it was run.
    pub rca_result: Option<RcaResult>,
    /// When this was collected.
    pub collected_at: Timestamp,
    /// Fix lifecycle status.
    pub fix_status: BadcaseFixStatus,
    /// How the badcase was found.
    pub entry: BadcaseEntry,
    /// Difficulty label for regression weighting: easy, medium or hard.
    pub difficulty: String,
    /// Coverage tags for regression attribution.
    pub coverage: Vec<String>,
}

/// The difficulty of a badcase without a label.
pub fn default_badcase_difficulty() -> (r: String)
    ensures
        r@ == "medium"@,
{
    "medium".to_string()
}

/// Governance rules of the regression suite: which badcases are too many, too
/// old, or failing too often to count in full.
#[derive(Debug)]
pub struct BadcaseGovernance {
    /// Badcases older than this many days are left out.
    pub max_age_days: u64,
    /// How many badcases with the same input are kept.
    pub max_duplicate_inputs: usize,
    /// After how many badcases a task's pass rate is lowered.
    pub downgrade_threshold: usize,
    /// The reduced pass rate.
    pub downgraded_pass_rate: Double,
    /// Difficulty label to multiplier of the trial count.
    pub difficulty_weights: StrMap<Double>,
    /// Multiplier for a label that is not listed.
    pub default_weight: Double,
}

impl Default for BadcaseGovernance {
    /// 90 days, three inputs, a pass rate of 0.7 after ten, and the weight 1.0.
    fn default() -> (r: Self)
        ensures
            r.max_age_days == 90,
            r.max_duplicate_inputs == 3,
            r.downgrade_threshold == 10,
            r.downgraded_pass_rate.bits == 0x3fe6_6666_6666_6666,
            r.difficulty_weights@ == Map::<Seq<char>, Double>::empty(),
            r.default_weight.bits == 0x3ff0_0000_0000_0000,
    {
        BadcaseGovernance {
            max_age_days: 90,
            max_duplicate_inputs: 3,
            downgrade_threshold: 10,
            downgraded_pass_rate: Double { bits: 0x3fe6_6666_6666_6666 },
            difficulty_weights: StrMap::new(),
            default_weight: Double { bits: 0x3ff0_0000_0000_0000 },
        }
    }
}

/// Whether a badcase is young enough at a time: less old than the days, or
/// collected later than that time.
pub open spec fn is_fresh(r: BadcaseRecord, max_age_days: u64, now: Timestamp) -> bool {
    now.total_nanos() < r.collected_at.total_nanos() || now.total_nanos()
        - r.collected_at.total_nanos() < max_age_days * 86400 * 1_000_000_000
}

/// The badcases that are young enough at a time, in their order.
pub open spec fn fresh(records: Seq<BadcaseRecord>, max_age_days: u64, now: Timestamp) -> Seq<
    BadcaseRecord,
> {
    records.filter(|r: BadcaseRecord| is_fresh(r, max_age_days, now))
}

/// How many of the badcases have an input.
pub open spec fn input_count(records: Seq<BadcaseRecord>, input: Seq<char>) -> nat
    decreases records.len(),
{
    if records.len() == 0 {
        0
    } else {
        input_count(records.drop_last(), input) + (if records.last().input@ == input {
            1nat
        } else {
            0nat
        })
    }
}

/// How many of the badcases come from a task.
pub open spec fn task_count(records: Seq<BadcaseRecord>, task_id: Seq<char>) -> nat
    decreases records.len(),
{
    if records.len() == 0 {
        0
    } else {
        task_count(records.drop_last(), task_id) + (if records.last().task_id@ == task_id {
            1nat
        } else {
            0nat
        })
    }
}

/// How many of the tasks have an input.
pub open spec fn written_count(tasks: Seq<EvalTask>, input: Seq<char>) -> nat
    decreases tasks.len(),
{
    if tasks.len() == 0 {
        0
    } else {
        written_count(tasks.drop_last(), input) + (if tasks.last().input@ == input {
            1nat
        } else {
            0nat
        })
    }
}

fn count_inputs(input: &str, existing: &[BadcaseRecord]) -> (r: usize)
    ensures
        r == input_count(existing@, input@),
{
    let mut count: usize = 0;
    let mut i: usize = 0;
    while i < existing.len()
        invariant
            i <= existing@.len(),
            count <= i,
            count == input_count(existing@.take(i as int), input@),
        decreases existing.len() - i,
    {
        proof {
            assert(existing@.take(i + 1).drop_last() =~= existing@.take(i as int));
            assert(existing@.take(i + 1).last() == existing@[i as int]);
        }
        if same(&existing[i].input, input) {
            count += 1;
        }
        i += 1;
    }
    assert(existing@.take(existing@.len() as int) =~= existing@);
    count
}

/// How many of the tasks of the badcase files have an input.
pub fn count_written_inputs(input: &str, written: &[EvalTask]) -> (r: usize)
    ensures
        r == written_count(written@, input@),
{
    let mut count: usize = 0;
    let mut i: usize = 0;
    while i < written.len()
        invariant
            i <= written@.len(),
            count <= i,
            count == written_count(written@.take(i as int), input@),
        decreases written.len() - i,
    {
        proof {
            assert(written@.take(i + 1).drop_last() =~= written@.take(i as int));
            assert(written@.take(i + 1).last() == written@[i as int]);
        }
        if same(&written[i].input, input) {
            count += 1;
        }
        i += 1;
    }
    assert(written@.take(written@.len() as int) =~= written@);
    count
}

/// How often an input is known: an entry of a badcase file may be read as a
/// record, as a task, or as both.
pub open spec fn known_count(
    existing: Seq<BadcaseRecord>,
    written: Seq<EvalTask>,
    input: Seq<char>,
) -> nat {
    if input_count(existing, input) < written_count(written, input) {
        written_count(written, input)
    } else {
        input_count(existing, input)
    }
}

/// How many more badcases of an input are kept.
pub open spec fn room(max: usize, known: nat) -> nat {
    if known < max {
        (max - known) as nat
    } else {
        0
    }
}

/// At most the first `n` of some positions.
pub open spec fn at_most(positions: Seq<usize>, n: nat) -> Seq<usize> {
    if positions.len() <= n {
        positions
    } else {
        positions.take(n as int)
    }
}

/// However many trials fail in one call, no input gets more badcases than are
/// kept, unless it had more before.
pub proof fn law_collecting_keeps_the_maximum(failed: Seq<usize>, max: usize, known: nat)
    ensures
        known <= max ==> known + at_most(failed, room(max, known)).len() <= max,
        known >= max ==> at_most(failed, room(max, known)).len() == 0,
{
}

impl BadcaseGovernance {
    /// The badcases that are not older than `max_age_days` now.
    pub fn filter_expired(&self, records: Vec<BadcaseRecord>) -> (r: Vec<BadcaseRecord>)
        requires
            self.max_age_days * 86400 <= u64::MAX,
        ensures
            exists|now: Timestamp| r@ == #[trigger] fresh(records@, self.max_age_days, now),
    {
        let t = now();
        self.filter_expired_at(records, t)
    }

    /// The badcases that are not older than `max_age_days` at a time.
    pub fn filter_expired_at(&self, records: Vec<BadcaseRecord>, now: Timestamp) -> (r: Vec<
        BadcaseRecord,
    >)
        requires
            self.max_age_days * 86400 <= u64::MAX,
        ensures
            r@ == fresh(records@, self.max_age_days, now),
    {
        let ghost all = records@;
        let ghost days = self.max_age_days;
        let ghost p = |r: BadcaseRecord| is_fresh(r, days, now);
        let cutoff: u128 = (self.max_age_days * 86400) as u128 * 1_000_000_000;
        let at: u128 = now.secs as u128 * 1_000_000_000 + now.nanos as u128;
        let mut out: Vec<BadcaseRecord> = Vec::new();
        proof {
            assert(all.take(0) =~= Seq::empty());
            assert(out@ =~= all.take(0).filter(p)) by {
                reveal(Seq::filter);
            }
        }
        for r in it: records
            invariant
                it.seq() == all,
                p == (|r: BadcaseRecord| is_fresh(r, days, now)),
                at == now.total_nanos(),
                cutoff == days * 86400 * 1_000_000_000,
                out@ == all.take(it.index()).filter(p),
        {
            let taken: u128 = r.collected_at.secs as u128 * 1_000_000_000
                + r.collected_at.nanos as u128;
            proof {
                let i = it.index();
                assert(all.take(i + 1).drop_last() =~= all.take(i));
                assert(all.take(i + 1).last() == r);
                assert(taken == r.collected_at.total_nanos());
                reveal(Seq::filter);
            }
            if at < taken || at - taken < cutoff {
                out.push(r);
            }
        }
        assert(all.take(all.len() as int) =~= all);
        out
    }

    /// Whether the input already has as many badcases as are kept.
    pub fn is_duplicate(&self, input: &str, existing: &[BadcaseRecord]) -> (r: bool)
        ensures
            r == (input_count(existing@, input@) >= self.max_duplicate_inputs),
    {
        count_inputs(input, existing) >= self.max_duplicate_inputs
    }

    /// The pass rate that is asked of a task: lowered where it has too many
    /// badcases.
    pub fn effective_pass_rate(
        &self,
        task_id: &str,
        records: &[BadcaseRecord],
        default_min: Double,
    ) -> (r: Double)
        ensures
            r == self.asked_rate(task_count(records@, task_id@), default_min),
    {
        match self.lowered_pass_rate(task_id, records, default_min) {
            Some(rate) => rate,
            None => default_min,
        }
    }

    /// The lowered pass rate of a task that has too many badcases.
    pub fn lowered_pass_rate(
        &self,
        task_id: &str,
        records: &[BadcaseRecord],
        default_min: Double,
    ) -> (r: Option<Double>)
        ensures
            r == self.lowered_rate(task_count(records@, task_id@), default_min),
    {
        let mut count: usize = 0;
        let mut i: usize = 0;
        while i < records.len()
            invariant
                i <= records@.len(),
                count <= i,
                count == task_count(records@.take(i as int), task_id@),
            decreases records.len() - i,
        {
            proof {
                assert(records@.take(i + 1).drop_last() =~= records@.take(i as int));
                assert(records@.take(i + 1).last() == records@[i as int]);
            }
            if same(&records[i].task_id, task_id) {
                count += 1;
            }
            i += 1;
        }
        assert(records@.take(records@.len() as int) =~= records@);
        if count >= self.downgrade_threshold {
            Some(double_min(self.downgraded_pass_rate, default_min))
        } else {
            None
        }
    }

    /// The lowered pass rate of a task with so many badcases, where they are too many.
    pub open spec fn lowered_rate(self, count: nat, default_min: Double) -> Option<Double> {
        if count >= self.downgrade_threshold {
            Some(lesser(self.downgraded_pass_rate, default_min))
        } else {
            None
        }
    }

    /// The pass rate that is asked of a task with so many badcases.
    pub open spec fn asked_rate(self, count: nat, default_min: Double) -> Double {
        match self.lowered_rate(count, default_min) {
            Some(rate) => rate,
            None => default_min,
        }
    }

    /// The weight of a difficulty label.
    pub open spec fn weight(self, difficulty: Seq<char>) -> Double {
        if self.difficulty_weights@.dom().contains(difficulty) {
            self.difficulty_weights@[difficulty]
        } else {
            self.default_weight
        }
    }

    /// The multiplier of the trial count for a difficulty label.
    pub fn weight_for(&self, difficulty: &str) -> (r: Double)
        ensures
            r == self.weight(difficulty@),
    {
        match self.difficulty_weights.get(difficulty) {
            Some(w) => *w,
            None => self.default_weight,
        }
    }

    /// The governance of a configuration: its weights, the rest by default.
    pub fn from_config(c: &BadcaseGovernanceConfig) -> (r: Self)
        ensures
            r.max_age_days == 90,
            r.max_duplicate_inputs == 3,
            r.downgrade_threshold == 10,
            r.downgraded_pass_rate.bits == 0x3fe6_6666_6666_6666,
            r.difficulty_weights@ == c.difficulty_weights@,
            r.default_weight == c.default_weight,
    {
        let base = BadcaseGovernance::default();
        BadcaseGovernance {
            difficulty_weights: c.difficulty_weights.copied(),
            default_weight: c.default_weight,
            max_age_days: base.max_age_days,
            max_duplicate_inputs: base.max_duplicate_inputs,
            downgrade_threshold: base.downgrade_threshold,
            downgraded_pass_rate: base.downgraded_pass_rate,
        }
    }
}

/// A pass rate is never raised by its downgrade.
pub proof fn law_a_downgrade_never_raises_the_rate(downgraded: Double, default_min: Double)
    requires
        !is_nan(default_min),
    ensures
        rank(lesser(downgraded, default_min)) <= rank(default_min),
        !is_nan(lesser(downgraded, default_min)),
{
}

/// Of a task with as many badcases as the threshold no more is asked than the lowered
/// pass rate, and of a task with fewer what is asked of every task.
pub proof fn law_frequent_failures_lower_the_rate(
    governance: BadcaseGovernance,
    records: Seq<BadcaseRecord>,
    task_id: Seq<char>,
    default_min: Double,
)
    requires
        !is_nan(governance.downgraded_pass_rate),
    ensures
        task_count(records, task_id) >= governance.downgrade_threshold ==> rank(
            governance.asked_rate(task_count(records, task_id), default_min),
        ) <= rank(governance.downgraded_pass_rate),
        task_count(records, task_id) < governance.downgrade_threshold ==> governance.asked_rate(
            task_count(records, task_id),
            default_min,
        ) == default_min,
{
}

/// A badcase that has expired stays so: what is left out at a time is left out at
/// every later time.
pub proof fn law_expired_badcases_stay_expired(
    r: BadcaseRecord,
    max_age_days: u64,
    now: Timestamp,
    later: Timestamp,
)
    requires
        !is_fresh(r, max_age_days, now),
        now.total_nanos() <= later.total_nanos(),
    ensures
        !is_fresh(r, max_age_days, later),
{
}

// ---------------------------------------------------------------------------
// Why a trial failed
// ---------------------------------------------------------------------------

/// What is said of the failed ones among the first `n` conditions.
pub open spec fn condition_reasons(v: Seq<ConditionResult>, n: int) -> Seq<Seq<char>>
    decreases n,
{
    if n <= 0 || n > v.len() {
        Seq::empty()
    } else if v[n - 1].passed {
        condition_reasons(v, n - 1)
    } else if v[n - 1].detail@.len() == 0 {
        condition_reasons(v, n - 1).push(
            "condition failed: actual '"@ + v[n - 1].actual@ + "'"@,
        )
    } else {
        condition_reasons(v, n - 1).push("condition failed: "@ + v[n - 1].detail@)
    }
}

/// What is said of a critique that did not pass.
pub open spec fn critique_reason(trial: TrialResult) -> Seq<char> {
    match trial.critique {
        Some(c) => if c.weaknesses@.len() > 0 {
            "critique: "@ + joined(texts(c.weaknesses@), "; "@)
        } else {
            "critique threshold not met"@
        },
        None => "critique failed"@,
    }
}

/// A list with one more item, or without.
pub open spec fn with(list: Seq<Seq<char>>, say: bool, item: Seq<char>) -> Seq<Seq<char>> {
    if say {
        list.push(item)
    } else {
        list
    }
}

/// The reasons for which a trial failed: the conditions, the critique, the
/// skills and the conditions of the session.
pub open spec fn failure_reasons(trial: TrialResult) -> Seq<Seq<char>> {
    let failed = condition_reasons(
        trial.condition_results@,
        trial.condition_results@.len() as int,
    );
    let a = with(
        Seq::empty(),
        !trial.conditions_passed && failed.len() > 0,
        "conditions: "@ + joined(failed, "; "@),
    );
    let b = with(a, !trial.critique_passed, critique_reason(trial));
    let c = with(b, !trial.skill_passed, "skill evaluation failed"@);
    with(c, !trial.session_conditions_passed, "session conditions failed"@)
}

/// The reason for which a trial failed, in words.
pub open spec fn failure_reason(trial: TrialResult) -> Seq<char> {
    if failure_reasons(trial).len() == 0 {
        "trial failed: unknown reason"@
    } else {
        joined(failure_reasons(trial), "; "@)
    }
}

fn failed_conditions(v: &Vec<ConditionResult>) -> (r: Vec<String>)
    ensures
        texts(r@) == condition_reasons(v@, v@.len() as int),
{
    let mut out: Vec<String> = Vec::new();
    let mut i: usize = 0;
    assert(texts(out@) =~= condition_reasons(v@, 0));
    while i < v.len()
        invariant
            i <= v@.len(),
            texts(out@) == condition_reasons(v@, i as int),
        decreases v.len() - i,
    {
        let ghost before = out@;
        if !v[i].passed {
            let line = if v[i].detail.as_str().is_empty() {
                let mut s = cat("condition failed: actual '", &v[i].actual);
                s.append("'");
                s
            } else {
                cat("condition failed: ", &v[i].detail)
            };
            let ghost text = line@;
            out.push(line);
            assert(texts(out@) =~= texts(before).push(text));
        }
        i += 1;
    }
    out
}

/// The reason for which a trial failed, in words.
pub fn determine_failure_reason(trial: &TrialResult) -> (r: String)
    ensures
        r@ == failure_reason(*trial),
{
    let mut reasons: Vec<String> = Vec::new();
    assert(texts(reasons@) =~= Seq::empty());
    if !trial.conditions_passed {
        let failed = failed_conditions(&trial.condition_results);
        if !failed.is_empty() {
            let line = cat("conditions: ", &join(failed.as_slice(), "; "));
            let ghost before = reasons@;
            let ghost text = line@;
            reasons.push(line);
            assert(texts(reasons@) =~= texts(before).push(text));
        }
    }
    if !trial.critique_passed {
        let line = match &trial.critique {
            Some(c) => {
                if !c.weaknesses.is_empty() {
                    cat("critique: ", &join(c.weaknesses.as_slice(), "; "))
                } else {
                    "critique threshold not met".to_string()
                }
            },
            None => "critique failed".to_string(),
        };
        let ghost before = reasons@;
        let ghost text = line@;
        reasons.push(line);
        assert(texts(reasons@) =~= texts(before).push(text));
    }
    if !trial.skill_passed {
        let ghost before = reasons@;
        reasons.push("skill evaluation failed".to_string());
        assert(texts(reasons@) =~= texts(before).push("skill evaluation failed"@));
    }
    if !trial.session_conditions_passed {
        let ghost before = reasons@;
        reasons.push("session conditions failed".to_string());
        assert(texts(reasons@) =~= texts(before).push("session conditions failed"@));
    }
    assert(texts(reasons@) =~= failure_reasons(*trial));
    if reasons.is_empty() {
        "trial failed: unknown reason".to_string()
    } else {
        join(reasons.as_slice(), "; ")
    }
}

// ---------------------------------------------------------------------------
// Collecting
// ---------------------------------------------------------------------------

/// Collects failed trials as badcases.
#[derive(Debug)]
pub struct BadcaseCollector {
    /// Analyzes the root cause of each failure, where it is there.
    rca_pipeline: Option<RcaPipeline>,
    /// The directory of the badcase files.
    output_dir: String,
}

/// The positions of the failed ones among the first `n` trials.
pub open spec fn failed_to(trials: Seq<TrialResult>, n: int) -> Seq<usize>
    decreases n,
{
    if n <= 0 || n > trials.len() {
        Seq::empty()
    } else if trials[n - 1].passed {
        failed_to(trials, n - 1)
    } else {
        failed_to(trials, n - 1).push((n - 1) as usize)
    }
}

impl BadcaseCollector {
    /// What analyzes the root cause of each failure.
    pub closed spec fn analysis(self) -> Option<RcaPipeline> {
        self.rca_pipeline
    }

    /// The directory of the badcase files.
    pub closed spec fn directory(self) -> Seq<char> {
        self.output_dir@
    }

    /// A collector that analyzes root causes where it is given a pipeline, and
    /// writes to a directory; by default to the one for badcases among the
    /// evaluations.
    pub fn new(
        rca_pipeline: Option<RcaPipeline>,
        output_dir: Option<String>,
        evals_dir: &str,
    ) -> (r: Self)
        ensures
            r.analysis() == rca_pipeline,
            r.directory() == match output_dir {
                Some(d) => d@,
                None => path_below(evals_dir@, "badcases"@),
            },
    {
        let output_dir = match output_dir {
            Some(d) => d,
            None => join_path(evals_dir, "badcases"),
        };
        BadcaseCollector { rca_pipeline, output_dir }
    }

    /// What analyzes the root cause of each failure.
    pub fn rca_pipeline(&self) -> (r: &Option<RcaPipeline>)
        ensures
            *r == self.analysis(),
    {
        &self.rca_pipeline
    }

    /// The directory of the badcase files.
    pub fn output_dir(&self) -> (r: &String)
        ensures
            r@ == self.directory(),
    {
        &self.output_dir
    }

    /// Which trials are collected: those that failed.
    pub fn collect(&self, trials: &[TrialResult]) -> (r: Vec<usize>)
        ensures
            r@ == failed_to(trials@, trials@.len() as int),
    {
        let mut out: Vec<usize> = Vec::new();
        let mut i: usize = 0;
        while i < trials.len()
            invariant
                i <= trials@.len(),
                out@ == failed_to(trials@, i as int),
            decreases trials.len() - i,
        {
            if !trials[i].passed {
                out.push(i);
            }
            i += 1;
        }
        out
    }

    /// Which trials are collected under governance: those that failed, as long as
    /// the input of the task has fewer badcases than are kept. The badcases are
    /// known by the records and by the tasks of the badcase files.
    pub fn collect_and_govern(
        &self,
        trials: &[TrialResult],
        task: &EvalTask,
        governance: &BadcaseGovernance,
        existing: &[BadcaseRecord],
        written: &[EvalTask],
    ) -> (r: Vec<usize>)
        ensures
            r@ == at_most(
                failed_to(trials@, trials@.len() as int),
                room(
                    governance.max_duplicate_inputs,
                    known_count(existing@, written@, task.input@),
                ),
            ),
    {
        let records: usize = count_inputs(&task.input, existing);
        let tasks: usize = count_written_inputs(&task.input, written);
        let known: usize = if records < tasks {
            tasks
        } else {
            records
        };
        let left: usize = if known < governance.max_duplicate_inputs {
            governance.max_duplicate_inputs - known
        } else {
            0
        };
        let mut failed = self.collect(trials);
        if failed.len() > left {
            failed.truncate(left);
        }
        failed
    }
}

/// The badcase of a failed trial, collected at a time, with the result of the
/// analysis where it was run and succeeded.
pub fn badcase_record(
    task: &EvalTask,
    trial: &TrialResult,
    rca_result: Option<RcaResult>,
    now: Timestamp,
) -> (r: BadcaseRecord)
    ensures
        r.id@ == task.id@ + "_"@ + hexadecimal(now.secs as nat),
        r.task_id@ == task.id@,
        r.input@ == task.input@,
        r.description@ == task.description@,
        r.failure_reason@ == failure_reason(*trial),
        r.response@ == trial.response@,
        r.rca_performed == (rca_result is Some),
        r.rca_result == rca_result,
        r.collected_at == now,
        r.fix_status == BadcaseFixStatus::Unconfirmed,
        r.entry is AutoDetected,
        r.difficulty@ == task.difficulty@,
        texts(r.coverage@) == texts(task.coverage@),
{
    let mut id = cat(&task.id, "_");
    id.append(&timestamp_text(now));
    let coverage = copy_texts(&task.coverage);
    BadcaseRecord {
        id,
        task_id: task.id.clone(),
        input: task.input.clone(),
        description: task.description.clone(),
        failure_reason: determine_failure_reason(trial),
        response: trial.response.clone(),
        rca_performed: rca_result.is_some(),
        rca_result,
        collected_at: now,
        fix_status: BadcaseFixStatus::Unconfirmed,
        entry: BadcaseEntry::AutoDetected,
        difficulty: task.difficulty.clone(),
        coverage,
    }
}

/// A short text for a time: its seconds, in hexadecimal.
pub fn timestamp_text(now: Timestamp) -> (r: String)
    ensures
        r@ == hexadecimal(now.secs as nat),
{
    hexadecimal_of(now.secs)
}

/// A short text for the time.
pub fn short_timestamp() -> (r: String)
    ensures
        exists|secs: u64| r@ == #[trigger] hexadecimal(secs as nat),
{
    timestamp_text(now())
}

// ---------------------------------------------------------------------------
// File names
// ---------------------------------------------------------------------------

/// Whether a character may stand in a file name.
pub open spec fn is_name_char(c: char) -> bool {
    is_alnum(c) || c == '-' || c == '_'
}

/// A text with the other characters replaced.
pub open spec fn name_chars(id: Seq<char>) -> Seq<char> {
    id.map_values(
        |c: char|
            if is_name_char(c) {
                c
            } else {
                '_'
            },
    )
}

/// A task id for use as a file name.
pub open spec fn sanitized(id: Seq<char>) -> Seq<char> {
    trimmed_of(name_chars(id), '_')
}

/// A task id for use as a file name: underscores in place of other characters,
/// and none at the ends.
pub fn sanitize_id(id: &str) -> (r: String)
    ensures
        r@ == sanitized(id@),
{
    let cs = chars_of(id);
    let mut out: Vec<char> = Vec::new();
    let mut i: usize = 0;
    while i < cs.len()
        invariant
            i <= cs@.len(),
            out@.len() == i,
            forall|k: int|
                0 <= k < i ==> #[trigger] out@[k] == (if is_name_char(cs@[k]) {
                    cs@[k]
                } else {
                    '_'
                }),
        decreases cs.len() - i,
    {
        let c = cs[i];
        if c.is_alphanumeric() || c == '-' || c == '_' {
            out.push(c);
        } else {
            out.push('_');
        }
        i += 1;
    }
    assert(out@ =~= name_chars(id@));
    trim_char(&string_of(&out), '_')
}

/// The name of the file that holds the badcases of a task.
pub fn badcase_file_name(task_id: &str) -> (r: String)
    ensures
        r@ == sanitized(task_id@) + ".yaml"@,
{
    cat(&sanitize_id(task_id), ".yaml")
}

proof fn lemma_past_char_stops(s: Seq<char>, c: char, from: int)
    requires
        0 <= from <= s.len(),
    ensures
        from <= past_char(s, c, from) <= s.len(),
        past_char(s, c, from) < s.len() ==> s[past_char(s, c, from)] != c,
    decreases s.len() - from,
{
    if from < s.len() && s[from] == c {
        lemma_past_char_stops(s, c, from + 1);
    }
}

proof fn lemma_before_char_stops(s: Seq<char>, c: char, from: int, to: int)
    requires
        0 <= from <= to <= s.len(),
    ensures
        from <= before_char(s, c, from, to) <= to,
        before_char(s, c, from, to) > from ==> s[before_char(s, c, from, to) - 1] != c,
    decreases to - from,
{
    if from < to && s[to - 1] == c {
        lemma_before_char_stops(s, c, from, to - 1);
    }
}

/// A file name holds only characters that it may, and no underscore at its
/// ends; made into a file name again, it stays what it is.
pub proof fn law_sanitized_ids_are_clean(id: Seq<char>)
    ensures
        forall|i: int| 0 <= i < sanitized(id).len() ==> is_name_char(#[trigger] sanitized(id)[i]),
        sanitized(id).len() > 0 ==> sanitized(id)[0] != '_' && sanitized(id).last() != '_',
        sanitized(sanitized(id)) == sanitized(id),
{
    let s = name_chars(id);
    let from = past_char(s, '_', 0);
    lemma_past_char_stops(s, '_', 0);
    lemma_before_char_stops(s, '_', from, s.len() as int);
    let to = before_char(s, '_', from, s.len() as int);
    let t = sanitized(id);
    assert(t == s.subrange(from, to));
    assert forall|i: int| 0 <= i < t.len() implies is_name_char(#[trigger] t[i]) by {
        assert(t[i] == s[from + i]);
    }
    assert(name_chars(t) =~= t);
    if t.len() > 0 {
        assert(t[0] == s[from]);
        assert(t.last() == s[to - 1]);
        assert(past_char(t, '_', 0) == 0);
        assert(before_char(t, '_', 0, t.len() as int) == t.len());
    }
    assert(t.subrange(0, t.len() as int) =~= t);
    assert(sanitized(t) =~= t);
}

// ---------------------------------------------------------------------------
// Clusters
// ---------------------------------------------------------------------------

/// Similar badcases: one phenomenon, one module.
#[derive(Debug)]
pub struct BadcaseCluster {
    /// What the user sees.
    pub phenomenon: Option<ProblemPhenomenon>,
    /// The primary responsible module.
    pub primary_module: Option<CandidateModule>,
    /// How many badcases there are.
    pub count: usize,
    /// Their tasks.
    pub task_ids: Vec<String>,
    /// The commonest reason of their failures.
    pub common_failure_reason: String,
}

/// What badcases are grouped by: the name of the phenomenon and the module.
pub struct ClusterKey {
    pub phenomenon: Seq<char>,
    pub module: Option<CandidateModule>,
}

/// The group of a badcase; one that was not analyzed is in a group of its own
/// kind.
pub open spec fn cluster_key(r: BadcaseRecord) -> ClusterKey {
    match r.rca_result {
        Some(rca) => ClusterKey {
            phenomenon: rca.phenomenon@,
            module: Some(rca.responsibility_module),
        },
        None => ClusterKey { phenomenon: "unknown"@, module: None },
    }
}

/// The badcases of a group, in their order.
pub open spec fn members(records: Seq<BadcaseRecord>, key: ClusterKey) -> Seq<BadcaseRecord>
    decreases records.len(),
{
    if records.len() == 0 {
        Seq::empty()
    } else if cluster_key(records.last()) == key {
        members(records.drop_last(), key).push(records.last())
    } else {
        members(records.drop_last(), key)
    }
}

/// The tasks of some badcases.
pub open spec fn task_ids(records: Seq<BadcaseRecord>) -> Seq<Seq<char>> {
    records.map_values(|r: BadcaseRecord| r.task_id@)
}

/// How many of the badcases failed for a reason.
pub open spec fn reason_count(records: Seq<BadcaseRecord>, reason: Seq<char>) -> nat
    decreases records.len(),
{
    if records.len() == 0 {
        0
    } else {
        reason_count(records.drop_last(), reason) + (if records.last().failure_reason@ == reason {
            1nat
        } else {
            0nat
        })
    }
}

/// Whether no reason is commoner than this one, which is one of them.
pub open spec fn is_common(records: Seq<BadcaseRecord>, reason: Seq<char>) -> bool {
    &&& exists|i: int| 0 <= i < records.len() && (#[trigger] records[i]).failure_reason@ == reason
    &&& forall|i: int|
        0 <= i < records.len() ==> reason_count(records, (#[trigger] records[i]).failure_reason@)
            <= reason_count(records, reason)
}

/// Whether a cluster is that of a group.
pub open spec fn cluster_of(
    records: Seq<BadcaseRecord>,
    key: ClusterKey,
    c: BadcaseCluster,
) -> bool {
    &&& c.phenomenon == phenomenon_named(key.phenomenon)
    &&& c.primary_module == key.module
    &&& c.count == members(records, key).len()
    &&& texts(c.task_ids@) == task_ids(members(records, key))
    &&& is_common(members(records, key), c.common_failure_reason@)
}

/// Whether some badcase is in a group.
pub open spec fn has_member(records: Seq<BadcaseRecord>, key: ClusterKey) -> bool {
    exists|i: int| 0 <= i < records.len() && cluster_key(#[trigger] records[i]) == key
}

/// Whether the clusters are those of the groups `keys`, which are all different
/// and all the groups that there are, the largest first.
pub open spec fn clustered_by(
    records: Seq<BadcaseRecord>,
    clusters: Seq<BadcaseCluster>,
    keys: Seq<ClusterKey>,
) -> bool {
    &&& keys.len() == clusters.len()
    &&& keys.no_duplicates()
    &&& forall|k: ClusterKey|
        #![trigger keys.contains(k)]
        #![trigger has_member(records, k)]
        keys.contains(k) <==> has_member(records, k)
    &&& forall|i: int|
        0 <= i < keys.len() ==> cluster_of(records, keys[i], #[trigger] clusters[i])
    &&& forall|i: int, j: int|
        0 <= i < j < clusters.len() ==> (#[trigger] clusters[i]).count >= (
        #[trigger] clusters[j]).count
}

/// A group, as it is written down.
struct GroupName {
    phenomenon: String,
    module: Option<CandidateModule>,
}

impl View for GroupName {
    type V = ClusterKey;

    closed spec fn view(&self) -> ClusterKey {
        ClusterKey { phenomenon: self.phenomenon@, module: self.module }
    }
}

fn same_module(a: &Option<CandidateModule>, b: &Option<CandidateModule>) -> (r: bool)
    ensures
        r == (*a == *b),
{
    match (a, b) {
        (Some(x), Some(y)) => *x == *y,
        (None, None) => true,
        _ => false,
    }
}

fn group_of(r: &BadcaseRecord) -> (k: GroupName)
    ensures
        k@ == cluster_key(*r),
{
    match &r.rca_result {
        Some(rca) => GroupName {
            phenomenon: rca.phenomenon.clone(),
            module: Some(rca.responsibility_module),
        },
        None => GroupName { phenomenon: "unknown".to_string(), module: None },
    }
}

fn same_group(a: &GroupName, b: &GroupName) -> (r: bool)
    ensures
        r == (a@ == b@),
{
    same(&a.phenomenon, &b.phenomenon) && same_module(&a.module, &b.module)
}

/// The positions of the members of a group.
spec fn positions_of(
    records: Seq<BadcaseRecord>,
    group: Seq<BadcaseRecord>,
    at: Seq<usize>,
) -> bool {
    &&& at.len() == group.len()
    &&& forall|i: int|
        0 <= i < at.len() ==> 0 <= #[trigger] at[i] < records.len() && records[at[i] as int]
            == group[i]
}

fn find_members(records: &[BadcaseRecord], key: &GroupName) -> (r: Vec<usize>)
    ensures
        positions_of(records@, members(records@, key@), r@),
{
    let mut out: Vec<usize> = Vec::new();
    let mut i: usize = 0;
    while i < records.len()
        invariant
            i <= records@.len(),
            positions_of(records@, members(records@.take(i as int), key@), out@),
        decreases records.len() - i,
    {
        proof {
            assert(records@.take(i + 1).drop_last() =~= records@.take(i as int));
            assert(records@.take(i + 1).last() == records@[i as int]);
        }
        if same_group(&group_of(&records[i]), key) {
            out.push(i);
        }
        i += 1;
    }
    assert(records@.take(records@.len() as int) =~= records@);
    out
}

fn count_reason(
    records: &[BadcaseRecord],
    at: &Vec<usize>,
    reason: &str,
    group: Ghost<Seq<BadcaseRecord>>,
) -> (r: usize)
    requires
        positions_of(records@, group@, at@),
    ensures
        r == reason_count(group@, reason@),
{
    let mut count: usize = 0;
    let mut i: usize = 0;
    while i < at.len()
        invariant
            i <= at@.len(),
            positions_of(records@, group@, at@),
            count <= i,
            count == reason_count(group@.take(i as int), reason@),
        decreases at.len() - i,
    {
        proof {
            assert(group@.take(i + 1).drop_last() =~= group@.take(i as int));
            assert(group@.take(i + 1).last() == group@[i as int]);
        }
        if same(&records[at[i]].failure_reason, reason) {
            count += 1;
        }
        i += 1;
    }
    assert(group@.take(at@.len() as int) =~= group@);
    count
}

fn make_cluster(records: &[BadcaseRecord], key: &GroupName) -> (r: BadcaseCluster)
    requires
        has_member(records@, key@),
    ensures
        cluster_of(records@, key@, r),
{
    let ghost group = members(records@, key@);
    let at = find_members(records, key);
    proof {
        lemma_members_are_there(records@, key@);
    }
    let mut ids: Vec<String> = Vec::new();
    let mut best: usize = 0;
    let mut best_count: usize = count_reason(
        records,
        &at,
        &records[at[0]].failure_reason,
        Ghost(group),
    );
    let mut i: usize = 0;
    while i < at.len()
        invariant
            i <= at@.len(),
            group == members(records@, key@),
            positions_of(records@, group, at@),
            ids@.len() == i,
            forall|k: int| 0 <= k < i ==> (#[trigger] ids@[k])@ == group[k].task_id@,
            best < at@.len(),
            best_count == reason_count(group, group[best as int].failure_reason@),
            forall|k: int|
                0 <= k < i ==> reason_count(group, (#[trigger] group[k]).failure_reason@)
                    <= best_count,
        decreases at.len() - i,
    {
        let record = &records[at[i]];
        ids.push(record.task_id.clone());
        let count = count_reason(records, &at, &record.failure_reason, Ghost(group));
        if count > best_count {
            best = i;
            best_count = count;
        }
        i += 1;
    }
    assert(texts(ids@) =~= task_ids(group));
    let common = records[at[best]].failure_reason.clone();
    assert(group[best as int].failure_reason@ == common@);
    BadcaseCluster {
        phenomenon: ProblemPhenomenon::from_name(&key.phenomenon),
        primary_module: key.module,
        count: at.len(),
        task_ids: ids,
        common_failure_reason: common,
    }
}

proof fn lemma_members_are_there(records: Seq<BadcaseRecord>, key: ClusterKey)
    ensures
        has_member(records, key) ==> members(records, key).len() > 0,
    decreases records.len(),
{
    if records.len() > 0 {
        let shorter = records.drop_last();
        lemma_members_are_there(shorter, key);
        if has_member(records, key) && cluster_key(records.last()) != key {
            let i = choose|i: int| 0 <= i < records.len() && cluster_key(#[trigger] records[i])
                == key;
            assert(shorter[i] == records[i]);
            assert(has_member(shorter, key));
        }
    }
}

proof fn lemma_has_member_step(records: Seq<BadcaseRecord>, n: int, key: ClusterKey)
    requires
        0 <= n < records.len(),
    ensures
        has_member(records.take(n + 1), key) <==> (has_member(records.take(n), key)
            || cluster_key(records[n]) == key),
{
    let a = records.take(n);
    let b = records.take(n + 1);
    if has_member(a, key) {
        let i = choose|i: int| 0 <= i < a.len() && cluster_key(#[trigger] a[i]) == key;
        assert(b[i] == a[i]);
    }
    if cluster_key(records[n]) == key {
        assert(b[n] == records[n]);
    }
    if has_member(b, key) {
        let i = choose|i: int| 0 <= i < b.len() && cluster_key(#[trigger] b[i]) == key;
        if i < n {
            assert(a[i] == b[i]);
        }
    }
}

/// The models of some groups.
spec fn group_models(v: Seq<GroupName>) -> Seq<ClusterKey> {
    v.map_values(|g: GroupName| g@)
}

fn all_groups(records: &[BadcaseRecord]) -> (r: Vec<GroupName>)
    ensures
        group_models(r@).no_duplicates(),
        forall|k: ClusterKey|
            #![trigger group_models(r@).contains(k)]
            #![trigger has_member(records@, k)]
            group_models(r@).contains(k) <==> has_member(records@, k),
{
    let mut out: Vec<GroupName> = Vec::new();
    let mut i: usize = 0;
    while i < records.len()
        invariant
            i <= records@.len(),
            group_models(out@).no_duplicates(),
            forall|k: ClusterKey|
                #![trigger group_models(out@).contains(k)]
                #![trigger has_member(records@.take(i as int), k)]
                group_models(out@).contains(k) <==> has_member(records@.take(i as int), k),
        decreases records.len() - i,
    {
        let key = group_of(&records[i]);
        let ghost groups = group_models(out@);
        let mut known = false;
        let mut j: usize = 0;
        while j < out.len()
            invariant
                j <= out@.len(),
                groups == group_models(out@),
                known <==> groups.take(j as int).contains(key@),
            decreases out.len() - j,
        {
            proof {
                assert(groups[j as int] == out@[j as int]@);
                assert(groups.take(j + 1) =~= groups.take(j as int).push(groups[j as int]));
                lemma_push_has(groups.take(j as int), groups[j as int], key@);
            }
            if same_group(&out[j], &key) {
                known = true;
            }
            j += 1;
        }
        assert(groups.take(out@.len() as int) =~= groups);
        proof {
            assert forall|k: ClusterKey| #[trigger] has_member(records@.take(i + 1), k) <==> (
            has_member(records@.take(i as int), k) || k == key@) by {
                lemma_has_member_step(records@, i as int, k);
            }
        }
        if !known {
            let ghost name = key@;
            out.push(key);
            proof {
                assert(group_models(out@) =~= groups.push(name));
                assert forall|k: ClusterKey|
                    #![trigger group_models(out@).contains(k)]
                    group_models(out@).contains(k) <==> (groups.contains(k) || k == name) by {
                    lemma_push_has(groups, name, k);
                }
            }
        }
        i += 1;
    }
    assert(records@.take(records@.len() as int) =~= records@);
    out
}

proof fn lemma_push_has<A>(s: Seq<A>, x: A, y: A)
    ensures
        s.push(x).contains(y) <==> (s.contains(y) || x == y),
{
    if s.contains(y) {
        let i = choose|i: int| 0 <= i < s.len() && s[i] == y;
        assert(s.push(x)[i] == y);
    }
    if x == y {
        assert(s.push(x)[s.len() as int] == y);
    }
    if s.push(x).contains(y) && x != y {
        let i = choose|i: int| 0 <= i < s.push(x).len() && s.push(x)[i] == y;
        assert(s[i] == y);
    }
}

proof fn lemma_insert_has<A>(s: Seq<A>, p: int, x: A, y: A)
    requires
        0 <= p <= s.len(),
    ensures
        s.insert(p, x).contains(y) <==> (s.contains(y) || x == y),
{
    let t = s.insert(p, x);
    if s.contains(y) {
        let i = choose|i: int| 0 <= i < s.len() && s[i] == y;
        assert(t[if i < p { i } else { i + 1 }] == y);
    }
    if x == y {
        assert(t[p] == y);
    }
    if t.contains(y) && x != y {
        let i = choose|i: int| 0 <= i < t.len() && t[i] == y;
        assert(s[if i < p { i } else { i - 1 }] == y);
    }
}

/// Group the badcases by phenomenon and module, the largest group first. Which
/// of two groups of one size comes first, and which of two reasons that are
/// equally common is named, is left open.
pub fn cluster_badcases(records: &[BadcaseRecord]) -> (r: Vec<BadcaseCluster>)
    ensures
        exists|keys: Seq<ClusterKey>| #[trigger] clustered_by(records@, r@, keys),
{
    let groups = all_groups(records);
    let ghost all = group_models(groups@);
    let mut out: Vec<BadcaseCluster> = Vec::new();
    let ghost mut keys: Seq<ClusterKey> = Seq::empty();
    let mut i: usize = 0;
    while i < groups.len()
        invariant
            i <= groups@.len(),
            all == group_models(groups@),
            all.no_duplicates(),
            forall|k: ClusterKey|
                #![trigger all.contains(k)]
                #![trigger has_member(records@, k)]
                all.contains(k) <==> has_member(records@, k),
            keys.len() == out@.len(),
            keys.no_duplicates(),
            forall|k: ClusterKey|
                #![trigger keys.contains(k)]
                keys.contains(k) <==> all.take(i as int).contains(k),
            forall|j: int|
                0 <= j < keys.len() ==> cluster_of(records@, keys[j], #[trigger] out@[j]),
            forall|j: int, k: int|
                0 <= j < k < out@.len() ==> (#[trigger] out@[j]).count >= (#[trigger] out@[k]).count,
        decreases groups.len() - i,
    {
        let ghost key = groups@[i as int]@;
        proof {
            assert(all[i as int] == key);
            assert(all.contains(key));
        }
        let cluster = make_cluster(records, &groups[i]);
        let mut pos: usize = 0;
        while pos < out.len() && out[pos].count >= cluster.count
            invariant
                pos <= out@.len(),
                forall|j: int| 0 <= j < pos ==> (#[trigger] out@[j]).count >= cluster.count,
            decreases out.len() - pos,
        {
            pos += 1;
        }
        let ghost before = out@;
        let ghost old_keys = keys;
        out.insert(pos, cluster);
        proof {
            keys = old_keys.insert(pos as int, key);
            assert(!old_keys.contains(key)) by {
                if all.take(i as int).contains(key) {
                    let head = all.take(i as int);
                    let j = choose|j: int| 0 <= j < head.len() && head[j] == key;
                    assert(all[j] == all[i as int]);
                }
            }
            assert forall|j: int, k: int| 0 <= j < keys.len() && 0 <= k < keys.len() && j
                != k implies #[trigger] keys[j] != #[trigger] keys[k] by {
                let a = if j < pos { j } else { j - 1 };
                let b = if k < pos { k } else { k - 1 };
                if j == pos {
                    assert(old_keys.contains(old_keys[b]));
                } else if k == pos {
                    assert(old_keys.contains(old_keys[a]));
                }
            }
            assert(all.take(i + 1) =~= all.take(i as int).push(key));
            assert forall|k: ClusterKey| #[trigger] keys.contains(k) <==> all.take(
                i + 1,
            ).contains(k) by {
                lemma_insert_has(old_keys, pos as int, key, k);
                lemma_push_has(all.take(i as int), key, k);
                assert(old_keys.contains(k) <==> all.take(i as int).contains(k));
            }
            assert forall|j: int| 0 <= j < keys.len() implies cluster_of(
                records@,
                keys[j],
                #[trigger] out@[j],
            ) by {
                if j < pos {
                    assert(out@[j] == before[j]);
                } else if j > pos {
                    assert(out@[j] == before[j - 1]);
                }
            }
            assert forall|j: int, k: int| 0 <= j < k < out@.len() implies (
            #[trigger] out@[j]).count >= (#[trigger] out@[k]).count by {
                let a = if j < pos { j } else { j - 1 };
                let b = if k < pos { k } else { k - 1 };
                if j != pos {
                    assert(out@[j] == before[a]);
                }
                if k != pos {
                    assert(out@[k] == before[b]);
                }
                if j == pos && k > pos {
                    assert(cluster.count >= before[pos as int].count);
                    if b > pos {
                        assert(before[pos as int].count >= before[b].count);
                    }
                }
            }
        }
        i += 1;
    }
    assert(all.take(groups@.len() as int) =~= all);
    assert(clustered_by(records@, out@, keys));
    out
}

/// The sum of the counts of the first `n` clusters.
pub open spec fn total_count(clusters: Seq<BadcaseCluster>, n: int) -> nat
    decreases n,
{
    if n <= 0 || n > clusters.len() {
        0
    } else {
        total_count(clusters, n - 1) + clusters[n - 1].count as nat
    }
}

/// The sum of the sizes of the first `n` groups.
spec fn total_size(records: Seq<BadcaseRecord>, keys: Seq<ClusterKey>, n: int) -> nat
    decreases n,
{
    if n <= 0 || n > keys.len() {
        0
    } else {
        total_size(records, keys, n - 1) + members(records, keys[n - 1]).len()
    }
}

proof fn lemma_one_more(records: Seq<BadcaseRecord>, keys: Seq<ClusterKey>, n: int)
    requires
        records.len() > 0,
        keys.no_duplicates(),
        0 <= n <= keys.len(),
    ensures
        total_size(records, keys, n) == total_size(records.drop_last(), keys, n) + (
        if keys.take(n).contains(cluster_key(records.last())) {
            1int
        } else {
            0int
        }),
    decreases n,
{
    let key = cluster_key(records.last());
    if n > 0 {
        lemma_one_more(records, keys, n - 1);
        assert(keys.take(n) =~= keys.take(n - 1).push(keys[n - 1]));
        lemma_push_has(keys.take(n - 1), keys[n - 1], key);
        if keys[n - 1] == key && keys.take(n - 1).contains(key) {
            let head = keys.take(n - 1);
            let j = choose|j: int| 0 <= j < head.len() && head[j] == key;
            assert(keys[j] == keys[n - 1]);
        }
    }
}

proof fn lemma_total_size(records: Seq<BadcaseRecord>, keys: Seq<ClusterKey>)
    requires
        keys.no_duplicates(),
        forall|i: int|
            0 <= i < records.len() ==> keys.contains(cluster_key(#[trigger] records[i])),
    ensures
        total_size(records, keys, keys.len() as int) == records.len(),
    decreases records.len(),
{
    if records.len() == 0 {
        lemma_no_sizes(records, keys, keys.len() as int);
    } else {
        let shorter = records.drop_last();
        assert forall|i: int| 0 <= i < shorter.len() implies keys.contains(
            cluster_key(#[trigger] shorter[i]),
        ) by {
            assert(shorter[i] == records[i]);
        }
        lemma_total_size(shorter, keys);
        lemma_one_more(records, keys, keys.len() as int);
        assert(keys.take(keys.len() as int) =~= keys);
        assert(keys.contains(cluster_key(records[records.len() - 1])));
    }
}

proof fn lemma_no_sizes(records: Seq<BadcaseRecord>, keys: Seq<ClusterKey>, n: int)
    requires
        records.len() == 0,
    ensures
        total_size(records, keys, n) == 0,
    decreases n,
{
    if 0 < n <= keys.len() {
        lemma_no_sizes(records, keys, n - 1);
    }
}

proof fn lemma_counts_are_sizes(
    records: Seq<BadcaseRecord>,
    clusters: Seq<BadcaseCluster>,
    keys: Seq<ClusterKey>,
    n: int,
)
    requires
        clustered_by(records, clusters, keys),
        0 <= n <= keys.len(),
    ensures
        total_count(clusters, n) == total_size(records, keys, n),
    decreases n,
{
    if n > 0 {
        lemma_counts_are_sizes(records, clusters, keys, n - 1);
        assert(cluster_of(records, keys[n - 1], clusters[n - 1]));
    }
}

/// Every badcase is counted in exactly one cluster.
pub proof fn law_clusters_count_each_badcase_once(
    records: Seq<BadcaseRecord>,
    clusters: Seq<BadcaseCluster>,
)
    requires
        exists|keys: Seq<ClusterKey>| #[trigger] clustered_by(records, clusters, keys),
    ensures
        total_count(clusters, clusters.len() as int) == records.len(),
{
    let keys = choose|keys: Seq<ClusterKey>| #[trigger] clustered_by(records, clusters, keys);
    assert forall|i: int| 0 <= i < records.len() implies keys.contains(
        cluster_key(#[trigger] records[i]),
    ) by {
        assert(has_member(records, cluster_key(records[i])));
    }
    lemma_total_size(records, keys);
    lemma_counts_are_sizes(records, clusters, keys, keys.len() as int);
}

// ---------------------------------------------------------------------------
// Badcases as tasks
// ---------------------------------------------------------------------------

/// A comparison, as it is written to a badcase file.
pub open spec fn comparison_name(c: Comparison) -> Seq<char> {
    match c {
        Comparison::Gt => "Gt"@,
        Comparison::Lt => "Lt"@,
        Comparison::Ge => "Ge"@,
        Comparison::Le => "Le"@,
        Comparison::Eq => "Eq"@,
    }
}

fn comparison_text(c: Comparison) -> (r: String)
    ensures
        r@ == comparison_name(c),
{
    match c {
        Comparison::Gt => "Gt".to_string(),
        Comparison::Lt => "Lt".to_string(),
        Comparison::Ge => "Ge".to_string(),
        Comparison::Le => "Le".to_string(),
        Comparison::Eq => "Eq".to_string(),
    }
}

/// A dimension, as it is written to a badcase file: by its label, one of its own
/// kind by its own text.
pub open spec fn dimension_name(d: DimensionModel) -> Seq<char> {
    match d {
        DimensionModel::FactualAccuracy => "factual_accuracy"@,
        DimensionModel::Completeness => "completeness"@,
        DimensionModel::Consistency => "consistency"@,
        DimensionModel::Clarity => "clarity"@,
        DimensionModel::Actionable => "actionable"@,
        DimensionModel::Safety => "safety"@,
        DimensionModel::InstructionFollowing => "instruction_following"@,
        DimensionModel::ContextRetention => "context_retention"@,
        DimensionModel::GoalSwitch => "goal_switch"@,
        DimensionModel::EmotionHandling => "emotion_handling"@,
        DimensionModel::EvidenceConsistency => "evidence_consistency"@,
        DimensionModel::Custom(s) => s,
    }
}

fn dimension_text(d: &QualityDimension) -> (r: String)
    ensures
        r@ == dimension_name(d@),
{
    match d {
        QualityDimension::FactualAccuracy => "factual_accuracy".to_string(),
        QualityDimension::Completeness => "completeness".to_string(),
        QualityDimension::Consistency => "consistency".to_string(),
        QualityDimension::Clarity => "clarity".to_string(),
        QualityDimension::Actionable => "actionable".to_string(),
        QualityDimension::Safety => "safety".to_string(),
        QualityDimension::InstructionFollowing => "instruction_following".to_string(),
        QualityDimension::ContextRetention => "context_retention".to_string(),
        QualityDimension::GoalSwitch => "goal_switch".to_string(),
        QualityDimension::EmotionHandling => "emotion_handling".to_string(),
        QualityDimension::EvidenceConsistency => "evidence_consistency".to_string(),
        QualityDimension::Custom(s) => s.clone(),
    }
}

/// The entries of a mapping of texts.
pub open spec fn text_entry(key: Seq<char>, text: Seq<char>) -> (Seq<char>, YamlModel) {
    (key, YamlModel::Text(text))
}

/// The entries that a condition is written as.
pub open spec fn condition_entries(c: ConditionModel) -> Seq<(Seq<char>, YamlModel)> {
    match c {
        ConditionModel::ExitCode { command, expected } => {
            let head = seq![text_entry("type"@, "exit_code"@), text_entry("command"@, command)];
            match expected {
                Some(n) => head.push(("expected"@, YamlModel::Int(n))),
                None => head,
            }
        },
        ConditionModel::Pattern { command, must_contain } => seq![
            text_entry("type"@, "pattern"@),
            text_entry("command"@, command),
            text_entry("must_contain"@, must_contain),
        ],
        ConditionModel::FileExists { path } => seq![
            text_entry("type"@, "file_exists"@),
            text_entry("path"@, path),
        ],
        ConditionModel::Numeric { command, operator, threshold } => seq![
            text_entry("type"@, "numeric"@),
            text_entry("command"@, command),
            text_entry("operator"@, comparison_name(operator)),
            ("threshold"@, YamlModel::Float(threshold)),
        ],
        ConditionModel::MustNotContain { command, must_not_contain } => seq![
            text_entry("type"@, "must_not_contain"@),
            text_entry("command"@, command),
            text_entry("must_not_contain"@, must_not_contain),
        ],
        ConditionModel::StaticAnalysis { command } => seq![
            text_entry("type"@, "static_analysis"@),
            text_entry("command"@, command),
        ],
    }
}

/// What a condition is written as.
pub open spec fn condition_yaml(c: ConditionModel) -> YamlModel {
    YamlModel::Mapping(condition_entries(c))
}

fn text_pair(key: &str, text: &str) -> (r: (String, YamlValue))
    ensures
        r.0@ == key@,
        r.1@ == YamlModel::Text(text@),
{
    (key.to_string(), YamlValue::Text(text.to_string()))
}

/// What a condition is written as.
pub fn goal_condition_to_yaml(cond: &GoalCondition) -> (r: YamlValue)
    ensures
        r@ == condition_yaml(cond@),
{
    let entries: Vec<(String, YamlValue)> = match cond {
        GoalCondition::ExitCode { command, expected } => {
            let mut m = vec![text_pair("type", "exit_code"), text_pair("command", command)];
            if let Some(n) = expected {
                m.push(("expected".to_string(), YamlValue::Int(*n)));
            }
            m
        },
        GoalCondition::Pattern { command, must_contain } => vec![
            text_pair("type", "pattern"),
            text_pair("command", command),
            text_pair("must_contain", must_contain),
        ],
        GoalCondition::FileExists { path } => vec![
            text_pair("type", "file_exists"),
            text_pair("path", path),
        ],
        GoalCondition::Numeric { command, operator, threshold } => vec![
            text_pair("type", "numeric"),
            text_pair("command", command),
            text_pair("operator", &comparison_text(*operator)),
            ("threshold".to_string(), YamlValue::Float(*threshold)),
        ],
        GoalCondition::MustNotContain { command, must_not_contain } => vec![
            text_pair("type", "must_not_contain"),
            text_pair("command", command),
            text_pair("must_not_contain", must_not_contain),
        ],
        GoalCondition::StaticAnalysis { command } => vec![
            text_pair("type", "static_analysis"),
            text_pair("command", command),
        ],
    };
    assert(entry_models(entries@) =~= condition_entries(cond@));
    let r = YamlValue::Mapping(entries);
    proof {
        lemma_yaml_parts(r);
    }
    r
}

/// The text under a key of a mapping; empty where there is none.
pub open spec fn text_under(y: YamlModel, key: Seq<char>) -> Seq<char> {
    match entry(y, key) {
        Some(YamlModel::Text(s)) => s,
        _ => Seq::empty(),
    }
}

/// Whether a condition of a task file is what a mapping says: each field holds
/// what stands under its name, or its default.
pub open spec fn reads_as(y: YamlModel, yc: YamlCondition) -> bool {
    &&& yc.cond_type@ == text_under(y, "type"@)
    &&& yc.command@ == text_under(y, "command"@)
    &&& match entry(y, "must_contain"@) {
        Some(YamlModel::Text(s)) => yc.must_contain matches Some(YamlScalar::Text(t)) && t@ == s,
        _ => yc.must_contain is None,
    }
    &&& match entry(y, "must_not_contain"@) {
        Some(YamlModel::Text(s)) => yc.must_not_contain matches Some(YamlScalar::Text(t)) && t@
            == s,
        _ => yc.must_not_contain is None,
    }
    &&& yc.expected == match entry(y, "expected"@) {
        Some(YamlModel::Int(n)) => Some(n),
        _ => None,
    }
    &&& yc.path@ == text_under(y, "path"@)
    &&& yc.operator@ == text_under(y, "operator"@)
    &&& yc.threshold == match entry(y, "threshold"@) {
        Some(YamlModel::Float(x)) => Some(x),
        _ => None,
    }
}

/// A condition that was written to a badcase file is read back as it was.
pub proof fn law_written_conditions_are_read_back(c: ConditionModel, yc: YamlCondition)
    requires
        reads_as(condition_yaml(c), yc),
    ensures
        converted(yc) == Some(c),
{
    reveal_with_fuel(entry_from, 6);
    lemma_condition_words();
    let entries = condition_entries(c);
    match c {
        ConditionModel::ExitCode { command, expected } => {
            assert(entries[0] == text_entry("type"@, "exit_code"@));
            assert(entries[1] == text_entry("command"@, command));
            if let Some(n) = expected {
                assert(entries[2] == ("expected"@, YamlModel::Int(n)));
            }
        },
        ConditionModel::Pattern { command, must_contain } => {
            assert(entries[0] == text_entry("type"@, "pattern"@));
            assert(entries[1] == text_entry("command"@, command));
            assert(entries[2] == text_entry("must_contain"@, must_contain));
        },
        ConditionModel::FileExists { path } => {
            assert(entries[0] == text_entry("type"@, "file_exists"@));
            assert(entries[1] == text_entry("path"@, path));
        },
        ConditionModel::Numeric { command, operator, threshold } => {
            assert(entries[0] == text_entry("type"@, "numeric"@));
            assert(entries[1] == text_entry("command"@, command));
            assert(entries[2] == text_entry("operator"@, comparison_name(operator)));
            assert(entries[3] == ("threshold"@, YamlModel::Float(threshold)));
            law_written_operators_are_read_back(operator);
        },
        ConditionModel::MustNotContain { command, must_not_contain } => {
            assert(entries[0] == text_entry("type"@, "must_not_contain"@));
            assert(entries[1] == text_entry("command"@, command));
            assert(entries[2] == text_entry("must_not_contain"@, must_not_contain));
        },
        ConditionModel::StaticAnalysis { command } => {
            assert(entries[0] == text_entry("type"@, "static_analysis"@));
            assert(entries[1] == text_entry("command"@, command));
        },
    }
}

/// A comparison that was written to a badcase file is read back as it was.
pub proof fn law_written_operators_are_read_back(c: Comparison)
    ensures
        operator_named(comparison_name(c)) == c,
{
    reveal_strlit("gt");
    reveal_strlit(">");
    reveal_strlit("lt");
    reveal_strlit("<");
    reveal_strlit("gte");
    reveal_strlit(">=");
    reveal_strlit("ge");
    reveal_strlit("lte");
    reveal_strlit("<=");
    reveal_strlit("le");
    reveal_strlit("Gt");
    reveal_strlit("Lt");
    reveal_strlit("Ge");
    reveal_strlit("Le");
    reveal_strlit("Eq");
    assert("gt"@[0] == 'g' && ">"@[0] == '>' && "lt"@[0] == 'l' && "<"@[0] == '<');
    assert("gte"@[0] == 'g' && ">="@[0] == '>' && "ge"@[0] == 'g');
    assert("lte"@[0] == 'l' && "<="@[0] == '<' && "le"@[0] == 'l');
    assert("Gt"@[0] == 'G' && "Gt"@[1] == 't' && "Ge"@[0] == 'G' && "Ge"@[1] == 'e');
    assert("Lt"@[0] == 'L' && "Lt"@[1] == 't' && "Le"@[0] == 'L' && "Le"@[1] == 'e');
    assert("Eq"@[0] == 'E');
}

/// A dimension that was written to a badcase file is read back as it was, unless
/// it is one of its own kind under the name of a known one.
pub proof fn law_written_dimensions_are_read_back(d: DimensionModel)
    requires
        d matches DimensionModel::Custom(s) ==> dimension_named(s) is Custom,
    ensures
        dimension_named(dimension_name(d)) == d,
{
    lemma_labels_differ();
}

/// The words of the conditions differ where they must.
proof fn lemma_condition_words()
    ensures
        "type"@ != "command"@,
        "type"@ != "must_contain"@,
        "type"@ != "must_not_contain"@,
        "type"@ != "expected"@,
        "type"@ != "path"@,
        "type"@ != "operator"@,
        "type"@ != "threshold"@,
        "command"@ != "must_contain"@,
        "command"@ != "must_not_contain"@,
        "command"@ != "expected"@,
        "command"@ != "path"@,
        "command"@ != "operator"@,
        "command"@ != "threshold"@,
        "operator"@ != "threshold"@,
        "must_contain"@ != "must_not_contain"@,
        "pattern"@ != "exit_code"@,
        "file_exists"@ != "exit_code"@,
        "file_exists"@ != "pattern"@,
        "must_not_contain"@ != "exit_code"@,
        "must_not_contain"@ != "pattern"@,
        "must_not_contain"@ != "file_exists"@,
        "static_analysis"@ != "exit_code"@,
        "static_analysis"@ != "pattern"@,
        "static_analysis"@ != "file_exists"@,
        "static_analysis"@ != "must_not_contain"@,
        "numeric"@ != "exit_code"@,
        "numeric"@ != "pattern"@,
        "numeric"@ != "file_exists"@,
        "numeric"@ != "must_not_contain"@,
        "numeric"@ != "static_analysis"@,
{
    reveal_strlit("type");
    reveal_strlit("command");
    reveal_strlit("must_contain");
    reveal_strlit("must_not_contain");
    reveal_strlit("expected");
    reveal_strlit("path");
    reveal_strlit("operator");
    reveal_strlit("threshold");
    reveal_strlit("exit_code");
    reveal_strlit("pattern");
    reveal_strlit("file_exists");
    reveal_strlit("static_analysis");
    reveal_strlit("numeric");
    assert("type"@[0] == 't' && "threshold"@[1] == 'h' && "type"@[1] == 'y');
    assert("command"@[0] == 'c' && "must_contain"@[0] == 'm' && "expected"@[0] == 'e');
    assert("path"@[0] == 'p' && "operator"@[0] == 'o' && "threshold"@[0] == 't');
    assert("exit_code"@[0] == 'e' && "pattern"@[0] == 'p' && "file_exists"@[0] == 'f');
    assert("numeric"@[0] == 'n' && "must_not_contain"@[0] == 'm' && "static_analysis"@[0] == 's');
    assert("must_contain"@.len() == 12 && "must_not_contain"@.len() == 16);
}

/// A list of texts.
pub open spec fn text_list(v: Seq<Seq<char>>) -> YamlModel {
    YamlModel::List(v.map_values(|s: Seq<char>| YamlModel::Text(s)))
}

/// An entry, or none.
pub open spec fn entry_if(say: bool, key: Seq<char>, y: YamlModel) -> Seq<(Seq<char>, YamlModel)> {
    if say {
        seq![(key, y)]
    } else {
        Seq::empty()
    }
}

/// What the criteria of a task are written as.
pub open spec fn criteria_yaml(task: EvalTask) -> YamlModel {
    match task.criteria {
        Some(c) => YamlModel::Mapping(
            seq![
                (
                    "dimensions"@,
                    text_list(
                        c.dimensions@.map_values(|d: QualityDimension| dimension_name(d@)),
                    ),
                ),
                (
                    "thresholds"@,
                    YamlModel::Mapping(
                        c.thresholds.list().map_values(
                            |p: (String, Double)| (p.0@, YamlModel::Float(p.1)),
                        ),
                    ),
                ),
            ],
        ),
        None => YamlModel::Mapping(Seq::empty()),
    }
}

/// The id under which the badcases of a task are written.
pub open spec fn badcase_id(task_id: Seq<char>) -> Seq<char> {
    cut_within(task_id, 50) + "_bc"@
}

fn written_id(task_id: &str) -> (r: String)
    ensures
        r@ == badcase_id(task_id@),
{
    cat(&cut_to(task_id, 50), "_bc")
}

/// A fix status, as it is written to a badcase file.
pub open spec fn status_name(status: BadcaseFixStatus) -> Seq<char> {
    match status {
        BadcaseFixStatus::Unconfirmed => "Unconfirmed"@,
        BadcaseFixStatus::Confirmed => "Confirmed"@,
        BadcaseFixStatus::Fixed => "Fixed"@,
        BadcaseFixStatus::Verified => "Verified"@,
    }
}

fn status_text(status: BadcaseFixStatus) -> (r: String)
    ensures
        r@ == status_name(status),
{
    match status {
        BadcaseFixStatus::Unconfirmed => "Unconfirmed".to_string(),
        BadcaseFixStatus::Confirmed => "Confirmed".to_string(),
        BadcaseFixStatus::Fixed => "Fixed".to_string(),
        BadcaseFixStatus::Verified => "Verified".to_string(),
    }
}

/// A time, as it is written to a badcase file.
pub open spec fn time_yaml(t: Timestamp) -> YamlModel {
    YamlModel::Mapping(
        seq![
            ("secs_since_epoch"@, YamlModel::Whole(t.secs)),
            ("nanos_since_epoch"@, YamlModel::Whole(t.nanos as u64)),
        ],
    )
}

fn time_value(t: Timestamp) -> (r: YamlValue)
    ensures
        r@ == time_yaml(t),
{
    let entries = vec![
        ("secs_since_epoch".to_string(), YamlValue::Whole(t.secs)),
        ("nanos_since_epoch".to_string(), YamlValue::Whole(t.nanos as u64)),
    ];
    assert(entry_models(entries@) =~= time_yaml(t)->Mapping_0);
    let r = YamlValue::Mapping(entries);
    proof {
        lemma_yaml_parts(r);
    }
    r
}

/// The entries by which a written badcase is read as a record again.
pub open spec fn record_entries(record: BadcaseRecord) -> Seq<(Seq<char>, YamlModel)> {
    seq![
        text_entry("task_id"@, record.task_id@),
        text_entry("response"@, record.response@),
        ("rca_performed"@, YamlModel::Bool(record.rca_performed)),
        ("collected_at"@, time_yaml(record.collected_at)),
        text_entry("fix_status"@, status_name(record.fix_status)),
        ("entry"@, YamlModel::Entry(record.entry)),
    ]
}

/// The entries that a badcase is written as, to be read as a task and as a record.
pub open spec fn task_entries(record: BadcaseRecord, original: EvalTask) -> Seq<
    (Seq<char>, YamlModel),
> {
    seq![
        text_entry("id"@, badcase_id(record.task_id@)),
        text_entry("input"@, record.input@),
    ] + entry_if(
        record.description@.len() > 0,
        "description"@,
        YamlModel::Text(record.description@),
    ) + entry_if(
        original.expected_behavior@.len() > 0,
        "expected_behavior"@,
        YamlModel::Text(original.expected_behavior@),
    ) + seq![text_entry("source"@, "badcase"@), text_entry("difficulty"@, record.difficulty@)]
        + entry_if(record.coverage@.len() > 0, "coverage"@, text_list(texts(record.coverage@)))
        + seq![text_entry("failure_reason"@, record.failure_reason@)] + entry_if(
        record.rca_result is Some,
        "rca_result"@,
        YamlModel::Analysis(record.rca_result->0@),
    ) + entry_if(
        original.conditions@.len() > 0,
        "conditions"@,
        YamlModel::List(
            original.conditions@.map_values(|c: GoalCondition| condition_yaml(c@)),
        ),
    ) + entry_if(original.criteria is Some, "criteria"@, criteria_yaml(original))
        + record_entries(record)
}

fn list_of_texts(v: &Vec<String>) -> (r: YamlValue)
    ensures
        r@ == text_list(texts(v@)),
{
    let mut out: Vec<YamlValue> = Vec::new();
    let mut i: usize = 0;
    while i < v.len()
        invariant
            i <= v@.len(),
            out@.len() == i,
            forall|k: int| 0 <= k < i ==> (#[trigger] out@[k])@ == YamlModel::Text(v@[k]@),
        decreases v.len() - i,
    {
        out.push(YamlValue::Text(v[i].clone()));
        i += 1;
    }
    assert(yaml_models(out@) =~= texts(v@).map_values(|s: Seq<char>| YamlModel::Text(s)));
    let r = YamlValue::List(out);
    proof {
        lemma_yaml_parts(r);
    }
    r
}

fn criteria_value(task: &EvalTask) -> (r: YamlValue)
    ensures
        r@ == criteria_yaml(*task),
{
    let mut entries: Vec<(String, YamlValue)> = Vec::new();
    if let Some(c) = &task.criteria {
        let mut dims: Vec<String> = Vec::new();
        let mut i: usize = 0;
        while i < c.dimensions.len()
            invariant
                i <= c.dimensions@.len(),
                dims@.len() == i,
                forall|k: int|
                    0 <= k < i ==> (#[trigger] dims@[k])@ == dimension_name(c.dimensions@[k]@),
            decreases c.dimensions.len() - i,
        {
            dims.push(dimension_text(&c.dimensions[i]));
            i += 1;
        }
        assert(texts(dims@) =~= c.dimensions@.map_values(
            |d: QualityDimension| dimension_name(d@),
        ));
        let mut pairs: Vec<(String, YamlValue)> = Vec::new();
        let mut k: usize = 0;
        while k < c.thresholds.len()
            invariant
                k <= c.thresholds.list().len(),
                pairs@.len() == k,
                forall|j: int|
                    0 <= j < k ==> (#[trigger] pairs@[j]).0@ == c.thresholds.list()[j].0@
                        && pairs@[j].1@ == YamlModel::Float(c.thresholds.list()[j].1),
            decreases c.thresholds.list().len() - k,
        {
            let key = c.thresholds.key_at(k);
            let value = c.thresholds.value_at(k);
            pairs.push((key.clone(), YamlValue::Float(*value)));
            k += 1;
        }
        assert(entry_models(pairs@) =~= c.thresholds.list().map_values(
            |p: (String, Double)| (p.0@, YamlModel::Float(p.1)),
        ));
        let thresholds = YamlValue::Mapping(pairs);
        proof {
            lemma_yaml_parts(thresholds);
        }
        entries.push(("dimensions".to_string(), list_of_texts(&dims)));
        entries.push(("thresholds".to_string(), thresholds));
    }
    assert(entry_models(entries@) =~= criteria_yaml(*task)->Mapping_0);
    let r = YamlValue::Mapping(entries);
    proof {
        lemma_yaml_parts(r);
    }
    r
}

fn condition_values(v: &Vec<GoalCondition>) -> (r: YamlValue)
    ensures
        r@ == YamlModel::List(v@.map_values(|c: GoalCondition| condition_yaml(c@))),
{
    let mut out: Vec<YamlValue> = Vec::new();
    let mut i: usize = 0;
    while i < v.len()
        invariant
            i <= v@.len(),
            out@.len() == i,
            forall|k: int| 0 <= k < i ==> (#[trigger] out@[k])@ == condition_yaml(v@[k]@),
        decreases v.len() - i,
    {
        out.push(goal_condition_to_yaml(&v[i]));
        i += 1;
    }
    assert(yaml_models(out@) =~= v@.map_values(|c: GoalCondition| condition_yaml(c@)));
    let r = YamlValue::List(out);
    proof {
        lemma_yaml_parts(r);
    }
    r
}

fn put(entries: &mut Vec<(String, YamlValue)>, key: &str, value: YamlValue)
    ensures
        entry_models(final(entries)@) == entry_models(old(entries)@) + seq![(key@, value@)],
{
    let ghost before = entries@;
    entries.push((key.to_string(), value));
    assert(entry_models(entries@) =~= entry_models(before) + seq![(key@, value@)]);
}

fn put_text(entries: &mut Vec<(String, YamlValue)>, key: &str, text: &str)
    ensures
        entry_models(final(entries)@) == entry_models(old(entries)@) + seq![text_entry(key@, text@)],
{
    put(entries, key, YamlValue::Text(text.to_string()));
}

fn put_if(entries: &mut Vec<(String, YamlValue)>, say: bool, key: &str, value: YamlValue)
    ensures
        entry_models(final(entries)@) == entry_models(old(entries)@) + entry_if(say, key@, value@),
{
    let ghost before = entries@;
    if say {
        put(entries, key, value);
    } else {
        assert(entry_models(before) =~= entry_models(before) + Seq::empty());
    }
}

fn put_text_if_any(entries: &mut Vec<(String, YamlValue)>, key: &str, text: &str)
    ensures
        entry_models(final(entries)@) == entry_models(old(entries)@) + entry_if(
            text@.len() > 0,
            key@,
            YamlModel::Text(text@),
        ),
{
    put_if(entries, !text.is_empty(), key, YamlValue::Text(text.to_string()));
}

/// A badcase as it is written to its file, to be read as a task, with the conditions
/// and criteria of the original task, and as the record that it is. Of the id at most
/// fifty bytes are kept.
pub fn build_badcase_yaml_task(record: &BadcaseRecord, original: &EvalTask) -> (r: YamlValue)
    ensures
        r@ == YamlModel::Mapping(task_entries(*record, *original)),
{
    let mut task: Vec<(String, YamlValue)> = Vec::new();
    let id = written_id(&record.task_id);
    put_text(&mut task, "id", &id);
    put_text(&mut task, "input", &record.input);
    let ghost a = entry_models(task@);
    assert(a =~= seq![text_entry("id"@, id@), text_entry("input"@, record.input@)]);
    put_text_if_any(&mut task, "description", &record.description);
    put_text_if_any(&mut task, "expected_behavior", &original.expected_behavior);
    let ghost b = entry_models(task@);
    put_text(&mut task, "source", "badcase");
    put_text(&mut task, "difficulty", &record.difficulty);
    let ghost c = entry_models(task@);
    assert(c =~= b + seq![
        text_entry("source"@, "badcase"@),
        text_entry("difficulty"@, record.difficulty@),
    ]);
    put_if(&mut task, !record.coverage.is_empty(), "coverage", list_of_texts(&record.coverage));
    put_text(&mut task, "failure_reason", &record.failure_reason);
    let ghost d = entry_models(task@);
    if let Some(rca) = &record.rca_result {
        put(&mut task, "rca_result", YamlValue::Analysis(rca.copied()));
    }
    assert(entry_models(task@) =~= d + entry_if(
        record.rca_result is Some,
        "rca_result"@,
        YamlModel::Analysis(record.rca_result->0@),
    ));
    put_if(
        &mut task,
        !original.conditions.is_empty(),
        "conditions",
        condition_values(&original.conditions),
    );
    put_if(&mut task, original.criteria.is_some(), "criteria", criteria_value(original));
    let ghost e = entry_models(task@);
    put_text(&mut task, "task_id", &record.task_id);
    put_text(&mut task, "response", &record.response);
    put(&mut task, "rca_performed", YamlValue::Bool(record.rca_performed));
    put(&mut task, "collected_at", time_value(record.collected_at));
    put_text(&mut task, "fix_status", &status_text(record.fix_status));
    put(&mut task, "entry", YamlValue::Entry(record.entry.copied()));
    assert(entry_models(task@) =~= e + record_entries(*record));
    let r = YamlValue::Mapping(task);
    proof {
        lemma_yaml_parts(r);
    }
    r
}

/// What the entries of a written badcase hold under a key.
spec fn task_lookup(record: BadcaseRecord, original: EvalTask, key: Seq<char>) -> Option<YamlModel> {
    if key == "id"@ {
        Some(YamlModel::Text(badcase_id(record.task_id@)))
    } else if key == "input"@ {
        Some(YamlModel::Text(record.input@))
    } else if key == "description"@ && record.description@.len() > 0 {
        Some(YamlModel::Text(record.description@))
    } else if key == "expected_behavior"@ && original.expected_behavior@.len() > 0 {
        Some(YamlModel::Text(original.expected_behavior@))
    } else if key == "source"@ {
        Some(YamlModel::Text("badcase"@))
    } else if key == "difficulty"@ {
        Some(YamlModel::Text(record.difficulty@))
    } else if key == "coverage"@ && record.coverage@.len() > 0 {
        Some(text_list(texts(record.coverage@)))
    } else if key == "failure_reason"@ {
        Some(YamlModel::Text(record.failure_reason@))
    } else if key == "rca_result"@ && record.rca_result is Some {
        Some(YamlModel::Analysis(record.rca_result->0@))
    } else if key == "conditions"@ && original.conditions@.len() > 0 {
        Some(
            YamlModel::List(
                original.conditions@.map_values(|c: GoalCondition| condition_yaml(c@)),
            ),
        )
    } else if key == "criteria"@ && original.criteria is Some {
        Some(criteria_yaml(original))
    } else {
        record_lookup(record, key)
    }
}

/// What the entries of a record hold under a key.
spec fn record_lookup(record: BadcaseRecord, key: Seq<char>) -> Option<YamlModel> {
    if key == "task_id"@ {
        Some(YamlModel::Text(record.task_id@))
    } else if key == "response"@ {
        Some(YamlModel::Text(record.response@))
    } else if key == "rca_performed"@ {
        Some(YamlModel::Bool(record.rca_performed))
    } else if key == "collected_at"@ {
        Some(time_yaml(record.collected_at))
    } else if key == "fix_status"@ {
        Some(YamlModel::Text(status_name(record.fix_status)))
    } else if key == "entry"@ {
        Some(YamlModel::Entry(record.entry))
    } else {
        None
    }
}

proof fn lemma_record_lookup(record: BadcaseRecord, key: Seq<char>)
    ensures
        entry_from(record_entries(record), key, 0) == record_lookup(record, key),
{
    reveal_with_fuel(entry_from, 7);
}

proof fn lemma_task_lookup(record: BadcaseRecord, original: EvalTask, key: Seq<char>)
    ensures
        entry(YamlModel::Mapping(task_entries(record, original)), key) == task_lookup(
            record,
            original,
            key,
        ),
{
    reveal_with_fuel(entry_from, 3);
    let p0 = seq![
        text_entry("id"@, badcase_id(record.task_id@)),
        text_entry("input"@, record.input@),
    ];
    let p1 = entry_if(
        record.description@.len() > 0,
        "description"@,
        YamlModel::Text(record.description@),
    );
    let p2 = entry_if(
        original.expected_behavior@.len() > 0,
        "expected_behavior"@,
        YamlModel::Text(original.expected_behavior@),
    );
    let p3 = seq![text_entry("source"@, "badcase"@), text_entry("difficulty"@, record.difficulty@)];
    let p4 = entry_if(
        record.coverage@.len() > 0,
        "coverage"@,
        text_list(texts(record.coverage@)),
    );
    let p5 = seq![text_entry("failure_reason"@, record.failure_reason@)];
    let p6 = entry_if(
        record.rca_result is Some,
        "rca_result"@,
        YamlModel::Analysis(record.rca_result->0@),
    );
    let p7 = entry_if(
        original.conditions@.len() > 0,
        "conditions"@,
        YamlModel::List(original.conditions@.map_values(|c: GoalCondition| condition_yaml(c@))),
    );
    let p8 = entry_if(original.criteria is Some, "criteria"@, criteria_yaml(original));
    lemma_entry_concat(p0, p1, key, 0);
    lemma_entry_concat(p0 + p1, p2, key, 0);
    lemma_entry_concat(p0 + p1 + p2, p3, key, 0);
    lemma_entry_concat(p0 + p1 + p2 + p3, p4, key, 0);
    lemma_entry_concat(p0 + p1 + p2 + p3 + p4, p5, key, 0);
    lemma_entry_concat(p0 + p1 + p2 + p3 + p4 + p5, p6, key, 0);
    lemma_entry_concat(p0 + p1 + p2 + p3 + p4 + p5 + p6, p7, key, 0);
    lemma_entry_concat(p0 + p1 + p2 + p3 + p4 + p5 + p6 + p7, p8, key, 0);
    let p9 = record_entries(record);
    lemma_entry_concat(p0 + p1 + p2 + p3 + p4 + p5 + p6 + p7 + p8, p9, key, 0);
    lemma_record_lookup(record, key);
}

/// The number of a key of a written badcase.
spec fn key_number(key: Seq<char>) -> int {
    if key == "id"@ {
        0
    } else if key == "input"@ {
        1
    } else if key == "description"@ {
        2
    } else if key == "expected_behavior"@ {
        3
    } else if key == "source"@ {
        4
    } else if key == "difficulty"@ {
        5
    } else if key == "coverage"@ {
        6
    } else if key == "failure_reason"@ {
        7
    } else if key == "rca_result"@ {
        8
    } else if key == "conditions"@ {
        9
    } else if key == "criteria"@ {
        10
    } else if key == "task_id"@ {
        11
    } else if key == "response"@ {
        12
    } else if key == "rca_performed"@ {
        13
    } else if key == "collected_at"@ {
        14
    } else if key == "fix_status"@ {
        15
    } else if key == "entry"@ {
        16
    } else {
        -1
    }
}

/// The keys of a written badcase differ.
proof fn lemma_task_words()
    ensures
        key_number("id"@) == 0,
        key_number("input"@) == 1,
        key_number("description"@) == 2,
        key_number("expected_behavior"@) == 3,
        key_number("source"@) == 4,
        key_number("difficulty"@) == 5,
        key_number("coverage"@) == 6,
        key_number("failure_reason"@) == 7,
        key_number("rca_result"@) == 8,
        key_number("conditions"@) == 9,
        key_number("criteria"@) == 10,
        key_number("task_id"@) == 11,
        key_number("response"@) == 12,
        key_number("rca_performed"@) == 13,
        key_number("collected_at"@) == 14,
        key_number("fix_status"@) == 15,
        key_number("entry"@) == 16,
        source_named(Some("badcase"@)) == EvalTaskSource::BadcaseRecycle,
        "dimensions"@ != "thresholds"@,
        "secs_since_epoch"@ != "nanos_since_epoch"@,
{
    reveal_strlit("id");
    reveal_strlit("input");
    reveal_strlit("description");
    reveal_strlit("expected_behavior");
    reveal_strlit("source");
    reveal_strlit("difficulty");
    reveal_strlit("coverage");
    reveal_strlit("failure_reason");
    reveal_strlit("rca_result");
    reveal_strlit("conditions");
    reveal_strlit("criteria");
    reveal_strlit("task_id");
    reveal_strlit("response");
    reveal_strlit("rca_performed");
    reveal_strlit("collected_at");
    reveal_strlit("fix_status");
    reveal_strlit("entry");
    reveal_strlit("badcase");
    reveal_strlit("extended");
    reveal_strlit("online");
    reveal_strlit("dimensions");
    reveal_strlit("thresholds");
    reveal_strlit("secs_since_epoch");
    reveal_strlit("nanos_since_epoch");
    assert("id"@.len() == 2 && "id"@[0] == 'i');
    assert("input"@.len() == 5 && "input"@[0] == 'i');
    assert("description"@.len() == 11 && "description"@[0] == 'd');
    assert("expected_behavior"@.len() == 17 && "expected_behavior"@[0] == 'e');
    assert("source"@.len() == 6 && "source"@[0] == 's');
    assert("difficulty"@.len() == 10 && "difficulty"@[0] == 'd');
    assert("coverage"@.len() == 8 && "coverage"@[0] == 'c');
    assert("failure_reason"@.len() == 14 && "failure_reason"@[0] == 'f');
    assert("rca_result"@.len() == 10 && "rca_result"@[0] == 'r');
    assert("conditions"@.len() == 10 && "conditions"@[0] == 'c');
    assert("criteria"@.len() == 8 && "criteria"@[0] == 'c');
    assert("task_id"@.len() == 7 && "task_id"@[0] == 't');
    assert("response"@.len() == 8 && "response"@[0] == 'r');
    assert("rca_performed"@.len() == 13 && "rca_performed"@[0] == 'r');
    assert("collected_at"@.len() == 12 && "collected_at"@[0] == 'c');
    assert("fix_status"@.len() == 10 && "fix_status"@[0] == 'f');
    assert("entry"@.len() == 5 && "entry"@[0] == 'e');
    assert("badcase"@.len() == 7 && "badcase"@[0] == 'b');
    assert("extended"@.len() == 8 && "extended"@[0] == 'e');
    assert("online"@.len() == 6 && "online"@[0] == 'o');
    assert("dimensions"@.len() == 10 && "dimensions"@[0] == 'd');
    assert("thresholds"@.len() == 10 && "thresholds"@[0] == 't');
    assert("secs_since_epoch"@.len() == 16 && "secs_since_epoch"@[0] == 's');
    assert("nanos_since_epoch"@.len() == 17 && "nanos_since_epoch"@[0] == 'n');
    assert("coverage"@[1] == 'o' && "criteria"@[1] == 'r');
    assert("source"@[0] == 's');
}

/// The texts of a list.
pub open spec fn listed_texts(y: Option<YamlModel>) -> Seq<Seq<char>> {
    match y {
        Some(YamlModel::List(v)) => v.map_values(
            |e: YamlModel|
                match e {
                    YamlModel::Text(s) => s,
                    _ => Seq::empty(),
                },
        ),
        _ => Seq::empty(),
    }
}

/// The text under a key, where there is one.
pub open spec fn text_if_any(y: YamlModel, key: Seq<char>) -> Option<Seq<char>> {
    match entry(y, key) {
        Some(YamlModel::Text(s)) => Some(s),
        _ => None,
    }
}

/// Whether reading a list gives these conditions.
pub open spec fn reads_as_conditions(y: Option<YamlModel>, v: Seq<YamlCondition>) -> bool {
    match y {
        Some(YamlModel::List(list)) => {
            &&& v.len() == list.len()
            &&& forall|i: int| 0 <= i < v.len() ==> reads_as(list[i], #[trigger] v[i])
        },
        _ => v.len() == 0,
    }
}

/// Whether an entry of a mapping has a key.
pub open spec fn key_at(entries: Seq<(Seq<char>, YamlModel)>, i: int, key: Seq<char>) -> bool {
    0 <= i < entries.len() && entries[i].0 == key
}

/// Whether reading a mapping gives these thresholds.
pub open spec fn reads_as_thresholds(y: Option<YamlModel>, m: Map<Seq<char>, Double>) -> bool {
    match y {
        Some(YamlModel::Mapping(entries)) => {
            &&& forall|i: int|
                0 <= i < entries.len() ==> m.dom().contains((#[trigger] entries[i]).0)
                    && entries[i].1 == YamlModel::Float(m[entries[i].0])
            &&& forall|k: Seq<char>| #[trigger]
                m.dom().contains(k) ==> exists|i: int| #[trigger] key_at(entries, i, k)
        },
        _ => m == Map::<Seq<char>, Double>::empty(),
    }
}

/// Whether reading a mapping as an entry of a task file gives `yt`.
pub open spec fn reads_as_task(y: YamlModel, yt: YamlTask) -> bool {
    &&& yt.id@ == text_under(y, "id"@)
    &&& yt.input@ == text_under(y, "input"@)
    &&& yt.description@ == text_under(y, "description"@)
    &&& yt.expected_behavior@ == text_under(y, "expected_behavior"@)
    &&& opt_text(yt.source) == text_if_any(y, "source"@)
    &&& opt_text(yt.failure_reason) == text_if_any(y, "failure_reason"@)
    &&& yt.difficulty@ == match text_if_any(y, "difficulty"@) {
        Some(d) => d,
        None => "medium"@,
    }
    &&& texts(yt.coverage@) == listed_texts(entry(y, "coverage"@))
    &&& reads_as_conditions(entry(y, "conditions"@), yt.conditions@)
    &&& match entry(y, "criteria"@) {
        Some(c) => yt.criteria matches Some(yc) && texts(yc.dimensions@) == listed_texts(
            entry(c, "dimensions"@),
        ) && reads_as_thresholds(entry(c, "thresholds"@), yc.thresholds@),
        None => yt.criteria is None,
    }
}

/// Whether reading a mapping gives this time.
pub open spec fn reads_as_time(y: Option<YamlModel>, t: Timestamp) -> bool {
    match y {
        Some(m) => entry(m, "secs_since_epoch"@) == Some(YamlModel::Whole(t.secs)) && entry(
            m,
            "nanos_since_epoch"@,
        ) == Some(YamlModel::Whole(t.nanos as u64)),
        None => false,
    }
}

/// Whether reading a mapping as a record gives `r`.
pub open spec fn reads_as_record(y: YamlModel, r: BadcaseRecord) -> bool {
    &&& text_if_any(y, "id"@) == Some(r.id@)
    &&& text_if_any(y, "task_id"@) == Some(r.task_id@)
    &&& text_if_any(y, "input"@) == Some(r.input@)
    &&& r.description@ == text_under(y, "description"@)
    &&& text_if_any(y, "failure_reason"@) == Some(r.failure_reason@)
    &&& text_if_any(y, "response"@) == Some(r.response@)
    &&& entry(y, "rca_performed"@) == Some(YamlModel::Bool(r.rca_performed))
    &&& match entry(y, "rca_result"@) {
        Some(YamlModel::Analysis(a)) => r.rca_result matches Some(result) && result@ == a,
        _ => r.rca_result is None,
    }
    &&& reads_as_time(entry(y, "collected_at"@), r.collected_at)
    &&& text_if_any(y, "fix_status"@) == Some(status_name(r.fix_status))
    &&& entry(y, "entry"@) == Some(YamlModel::Entry(r.entry))
    &&& r.difficulty@ == match text_if_any(y, "difficulty"@) {
        Some(d) => d,
        None => "medium"@,
    }
    &&& texts(r.coverage@) == listed_texts(entry(y, "coverage"@))
}

/// A badcase that was written to a file is read back as the record that it was, under
/// the id that it was written with: so it counts for its task and its input, and grows
/// old, as before.
pub proof fn law_written_badcases_are_records(
    record: BadcaseRecord,
    original: EvalTask,
    r: BadcaseRecord,
)
    requires
        reads_as_record(YamlModel::Mapping(task_entries(record, original)), r),
    ensures
        r.id@ == badcase_id(record.task_id@),
        r.task_id@ == record.task_id@,
        r.input@ == record.input@,
        r.description@ == record.description@,
        r.failure_reason@ == record.failure_reason@,
        r.response@ == record.response@,
        r.rca_performed == record.rca_performed,
        match (record.rca_result, r.rca_result) {
            (Some(a), Some(b)) => a@ == b@,
            (None, None) => true,
            _ => false,
        },
        r.collected_at == record.collected_at,
        r.fix_status == record.fix_status,
        r.entry == record.entry,
        r.difficulty@ == record.difficulty@,
        texts(r.coverage@) == texts(record.coverage@),
{
    lemma_task_words();
    lemma_statuses_differ();
    lemma_task_lookup(record, original, "id"@);
    lemma_task_lookup(record, original, "input"@);
    lemma_task_lookup(record, original, "description"@);
    lemma_task_lookup(record, original, "difficulty"@);
    lemma_task_lookup(record, original, "coverage"@);
    lemma_task_lookup(record, original, "failure_reason"@);
    lemma_task_lookup(record, original, "rca_result"@);
    lemma_task_lookup(record, original, "task_id"@);
    lemma_task_lookup(record, original, "response"@);
    lemma_task_lookup(record, original, "rca_performed"@);
    lemma_task_lookup(record, original, "collected_at"@);
    lemma_task_lookup(record, original, "fix_status"@);
    lemma_task_lookup(record, original, "entry"@);
    assert(r.description@ =~= record.description@);
    assert(texts(r.coverage@) =~= texts(record.coverage@));
    reveal_with_fuel(entry_from, 3);
}

proof fn lemma_statuses_differ()
    ensures
        forall|a: BadcaseFixStatus, b: BadcaseFixStatus|
            #![trigger status_name(a), status_name(b)]
            status_name(a) == status_name(b) ==> a == b,
{
    reveal_strlit("Unconfirmed");
    reveal_strlit("Confirmed");
    reveal_strlit("Fixed");
    reveal_strlit("Verified");
    assert("Unconfirmed"@.len() == 11 && "Confirmed"@.len() == 9);
    assert("Fixed"@.len() == 5 && "Verified"@.len() == 8);
}

/// Whether criteria can be read back: no dimension of its own kind has the name of
/// a known one.
pub open spec fn has_own_names(c: QualityCriteria) -> bool {
    forall|i: int|
        0 <= i < c.dimensions@.len() ==> ((#[trigger] c.dimensions@[i])@ matches
            DimensionModel::Custom(s) ==> dimension_named(s) is Custom)
}

/// A badcase that was written to a file is read back as a task: with the input, the
/// description and the labels of the badcase, marked as recycled, and with the
/// conditions and criteria of the original task.
pub proof fn law_written_badcases_are_read_back(
    record: BadcaseRecord,
    original: EvalTask,
    yt: YamlTask,
    t: EvalTask,
)
    requires
        reads_as_task(YamlModel::Mapping(task_entries(record, original)), yt),
        task_converted(yt, t),
        original.criteria matches Some(c) ==> has_own_names(c),
    ensures
        t.id@ == badcase_id(record.task_id@),
        t.input@ == record.input@,
        t.description@ == record.description@,
        t.expected_behavior@ == original.expected_behavior@,
        t.source == EvalTaskSource::BadcaseRecycle,
        opt_text(t.failure_reason) == Some(record.failure_reason@),
        t.difficulty@ == record.difficulty@,
        texts(t.coverage@) == texts(record.coverage@),
        condition_models(t.conditions@) == condition_models(original.conditions@),
        match (original.criteria, t.criteria) {
            (Some(c), Some(d)) => dimension_models(d.dimensions@) == dimension_models(
                c.dimensions@,
            ) && d.thresholds@ == c.thresholds@,
            (None, None) => true,
            _ => false,
        },
{
    lemma_task_words();
    lemma_task_lookup(record, original, "id"@);
    lemma_task_lookup(record, original, "input"@);
    lemma_task_lookup(record, original, "description"@);
    lemma_task_lookup(record, original, "expected_behavior"@);
    lemma_task_lookup(record, original, "source"@);
    lemma_task_lookup(record, original, "difficulty"@);
    lemma_task_lookup(record, original, "coverage"@);
    lemma_task_lookup(record, original, "failure_reason"@);
    lemma_task_lookup(record, original, "conditions"@);
    lemma_task_lookup(record, original, "criteria"@);
    let y = YamlModel::Mapping(task_entries(record, original));
    assert(t.description@ =~= record.description@);
    assert(t.expected_behavior@ =~= original.expected_behavior@);
    assert(texts(t.coverage@) =~= texts(record.coverage@));
    let models = condition_models(original.conditions@);
    assert forall|i: int| 0 <= i < yt.conditions@.len() implies converted(
        #[trigger] yt.conditions@[i],
    ) == Some(models[i]) by {
        law_written_conditions_are_read_back(models[i], yt.conditions@[i]);
    }
    lemma_all_converted(yt.conditions@, models);
    if let Some(c) = original.criteria {
        let yc = yt.criteria->0;
        lemma_criteria_read_back(original, c, yc);
        assert(dimension_models(t.criteria->0.dimensions@) == dimensions_named(yc.dimensions@));
    }
}

proof fn lemma_all_converted(v: Seq<YamlCondition>, models: Seq<ConditionModel>)
    requires
        v.len() == models.len(),
        forall|i: int| 0 <= i < v.len() ==> converted(#[trigger] v[i]) == Some(models[i]),
    ensures
        all_converted(v) == models,
    decreases v.len(),
{
    if v.len() > 0 {
        lemma_all_converted(v.drop_last(), models.drop_last());
        assert(converted(v[v.len() - 1]) == Some(models.last()));
        assert(models =~= models.drop_last().push(models.last()));
    } else {
        assert(models =~= Seq::empty());
    }
}

proof fn lemma_criteria_read_back(original: EvalTask, c: QualityCriteria, yc: YamlCriteria)
    requires
        original.criteria == Some(c),
        has_own_names(c),
        texts(yc.dimensions@) == listed_texts(entry(criteria_yaml(original), "dimensions"@)),
        reads_as_thresholds(entry(criteria_yaml(original), "thresholds"@), yc.thresholds@),
    ensures
        dimensions_named(yc.dimensions@) == dimension_models(c.dimensions@),
        yc.thresholds@ == c.thresholds@,
{
    reveal_with_fuel(entry_from, 3);
    lemma_task_words();
    let names = c.dimensions@.map_values(|d: QualityDimension| dimension_name(d@));
    let floats = c.thresholds.list().map_values(
        |p: (String, Double)| (p.0@, YamlModel::Float(p.1)),
    );
    assert(entry(criteria_yaml(original), "dimensions"@) == Some(text_list(names)));
    assert(entry(criteria_yaml(original), "thresholds"@) == Some(YamlModel::Mapping(floats)));
    assert(texts(yc.dimensions@) =~= names);
    assert forall|i: int| 0 <= i < yc.dimensions@.len() implies dimensions_named(
        yc.dimensions@,
    )[i] == dimension_models(c.dimensions@)[i] by {
        assert(texts(yc.dimensions@)[i] == yc.dimensions@[i]@);
        assert(names[i] == dimension_name(c.dimensions@[i]@));
        law_written_dimensions_are_read_back(c.dimensions@[i]@);
    }
    assert(texts(yc.dimensions@).len() == names.len());
    assert(dimensions_named(yc.dimensions@) =~= dimension_models(c.dimensions@));
    let list = c.thresholds.list();
    assert forall|k: Seq<char>| yc.thresholds@.dom().contains(k) == c.thresholds@.dom().contains(
        k,
    ) by {
        if yc.thresholds@.dom().contains(k) {
            let i = choose|i: int| #[trigger] key_at(floats, i, k);
            assert(keyed(list, k, i));
        }
        if c.thresholds@.dom().contains(k) {
            let i = choose|i: int| #[trigger] keyed(list, k, i);
            assert(keyed(list, k, i));
            assert(floats[i].0 == k);
        }
    }
    assert forall|k: Seq<char>| c.thresholds@.dom().contains(k) implies yc.thresholds@[k]
        == c.thresholds@[k] by {
        let i = choose|i: int| #[trigger] keyed(list, k, i);
        assert(keyed(list, k, i));
        assert(floats[i] == (k, YamlModel::Float(list[i].1)));
    }
    assert(yc.thresholds@ =~= c.thresholds@);
}

// ---------------------------------------------------------------------------
// Badcase files
// ---------------------------------------------------------------------------

/// The entries that a badcase file holds; none where there is no file.
pub open spec fn held(text: Option<Seq<char>>) -> Seq<TreeModel> {
    match text {
        Some(t) => tasks_of(yaml_read(t)),
        None => Seq::empty(),
    }
}

/// The entry of a badcase in its file.
pub open spec fn written_entry(record: BadcaseRecord, original: EvalTask) -> TreeModel {
    yaml_tree(YamlModel::Mapping(task_entries(record, original)))
}

/// What the file of a task holds after a badcase was appended to what it held, given
/// its text where there is a file. A text that is no YAML, or has no list of tasks,
/// counts as empty.
pub fn write_badcase_yaml(
    existing: &Option<String>,
    record: &BadcaseRecord,
    original: &EvalTask,
) -> (r: Tree)
    ensures
        r@ == listing(held(opt_text(*existing)).push(written_entry(*record, *original))),
{
    let mut tasks: Vec<Tree> = match existing {
        Some(text) => entries_of(text),
        None => Vec::new(),
    };
    assert(tree_models(tasks@) =~= held(opt_text(*existing)));
    let ghost before = tasks@;
    let entry = build_badcase_yaml_task(record, original).into_tree();
    tasks.push(entry);
    assert(tree_models(tasks@) =~= tree_models(before).push(entry@));
    document_of(tasks)
}

/// Appending a badcase keeps every earlier entry of the file at its place, and puts the
/// new one behind them.
pub proof fn law_appending_keeps_earlier_entries(
    existing: Option<Seq<char>>,
    record: BadcaseRecord,
    original: EvalTask,
    i: int,
)
    requires
        0 <= i < held(existing).len(),
    ensures
        ({
            let after = tasks_of(
                Some(listing(held(existing).push(written_entry(record, original)))),
            );
            &&& after.len() == held(existing).len() + 1
            &&& after[i] == held(existing)[i]
            &&& after.last() == written_entry(record, original)
        }),
{
    law_a_document_lists_its_tasks(held(existing).push(written_entry(record, original)));
}

/// The entries of the first `n` badcase files, one file after another.
pub open spec fn entries_to(files: Seq<Seq<char>>, n: int) -> Seq<TreeModel>
    decreases n,
{
    if n <= 0 || n > files.len() {
        Seq::empty()
    } else {
        entries_to(files, n - 1) + tasks_of(yaml_read(files[n - 1]))
    }
}

/// The entries of all badcase files that could be read, to be read as records. A file
/// that is no YAML, or has no list of tasks, holds none.
pub fn load_all_badcase_records(files: &[String]) -> (r: Vec<Tree>)
    ensures
        tree_models(r@) == entries_to(texts(files@), files@.len() as int),
{
    let ghost all = texts(files@);
    let mut out: Vec<Tree> = Vec::new();
    let mut i: usize = 0;
    assert(tree_models(out@) =~= entries_to(all, 0));
    while i < files.len()
        invariant
            i <= files@.len(),
            all == texts(files@),
            tree_models(out@) == entries_to(all, i as int),
        decreases files.len() - i,
    {
        let ghost before = out@;
        let mut more = entries_of(&files[i]);
        let ghost added = more@;
        out.append(&mut more);
        assert(tree_models(out@) =~= tree_models(before) + tree_models(added));
        i += 1;
    }
    out
}

/// The analyses that the first `n` entries hold.
pub open spec fn analyses_to(entries: Seq<TreeModel>, n: int) -> Seq<TreeModel>
    decreases n,
{
    if n <= 0 || n > entries.len() {
        Seq::empty()
    } else {
        match under(entries[n - 1], "rca_result"@) {
            Some(a) => analyses_to(entries, n - 1).push(a),
            None => analyses_to(entries, n - 1),
        }
    }
}

/// The analyses that the entries of all badcase files hold, to be read as results.
pub fn extract_rca_results_from_badcases(files: &[String]) -> (r: Vec<Tree>)
    ensures
        ({
            let entries = entries_to(texts(files@), files@.len() as int);
            tree_models(r@) == analyses_to(entries, entries.len() as int)
        }),
{
    let entries = load_all_badcase_records(files);
    let ghost parts = entries@;
    let ghost all = tree_models(parts);
    let mut out: Vec<Tree> = Vec::new();
    assert(tree_models(out@) =~= analyses_to(all, 0));
    for e in it: entries
        invariant
            it.seq() == parts,
            all == tree_models(parts),
            tree_models(out@) == analyses_to(all, it.index()),
    {
        let ghost before = out@;
        assert(all[it.index()] == e@);
        if let Some(a) = take_under(e, "rca_result") {
            out.push(a);
            assert(tree_models(out@) =~= tree_models(before).push(a@));
        }
    }
    out
}

proof fn lemma_trees_hold(entries: Seq<(Seq<char>, YamlModel)>, key: Seq<char>, i: int)
    requires
        0 <= i <= entries.len(),
    ensures
        under_from(yaml_tree(YamlModel::Mapping(entries))->Mapping_0, key, i) == match entry_from(
            entries,
            key,
            i,
        ) {
            Some(y) => Some(yaml_tree(y)),
            None => None,
        },
    decreases entries.len() - i,
{
    if i < entries.len() {
        lemma_trees_hold(entries, key, i + 1);
    }
}

/// The entry of a badcase in its file holds, under every key, what was written there.
pub proof fn law_an_entry_holds_what_was_written(
    record: BadcaseRecord,
    original: EvalTask,
    key: Seq<char>,
)
    ensures
        under(written_entry(record, original), key) == match entry(
            YamlModel::Mapping(task_entries(record, original)),
            key,
        ) {
            Some(y) => Some(yaml_tree(y)),
            None => None,
        },
{
    lemma_trees_hold(task_entries(record, original), key, 0);
}

/// The analysis of a badcase that was appended to some entries is extracted behind
/// those of the entries; of a badcase without one nothing is.
pub proof fn law_written_analyses_are_extracted(
    entries: Seq<TreeModel>,
    record: BadcaseRecord,
    original: EvalTask,
)
    ensures
        ({
            let after = entries.push(written_entry(record, original));
            analyses_to(after, after.len() as int) == match record.rca_result {
                Some(a) => analyses_to(entries, entries.len() as int).push(
                    TreeModel::Mapping(analysis_entries(a@)),
                ),
                None => analyses_to(entries, entries.len() as int),
            }
        }),
{
    lemma_task_words();
    lemma_task_lookup(record, original, "rca_result"@);
    law_an_entry_holds_what_was_written(record, original, "rca_result"@);
    lemma_analyses_before(entries, written_entry(record, original), entries.len() as int);
}

proof fn lemma_analyses_before(entries: Seq<TreeModel>, e: TreeModel, n: int)
    requires
        0 <= n <= entries.len(),
    ensures
        analyses_to(entries.push(e), n) == analyses_to(entries, n),
    decreases n,
{
    if n > 0 {
        lemma_analyses_before(entries, e, n - 1);
    }
}

// ---------------------------------------------------------------------------
// The regression suite
// ---------------------------------------------------------------------------

/// Whether a task is another one, recycled from a badcase.
pub open spec fn is_recycled(task: EvalTask, r: EvalTask) -> bool {
    r == (EvalTask { source: EvalTaskSource::BadcaseRecycle, ..task })
}

/// The regression suite of the tasks that the badcase files hold: all trials of
/// three must pass.
pub fn load_badcase_suite(tasks: Vec<EvalTask>) -> (r: EvalSuite)
    ensures
        r.id@ == "badcases"@,
        r.name@ == "Badcase Regression Suite"@,
        r.category == SuiteCategory::Regression,
        r.tasks@.len() == tasks@.len(),
        forall|i: int| 0 <= i < r.tasks@.len() ==> is_recycled(tasks@[i], #[trigger] r.tasks@[i]),
        r.min_pass_rate.bits == 0x3ff0_0000_0000_0000,
        r.trials == 3,
        !r.continuous_success_required,
        r.sampling_rate.bits == 0x3ff0_0000_0000_0000,
        r.tags@.len() == 0,
        r.agent_type is None,
        r.skill_designs@.len() == 0,
{
    let ghost all = tasks@;
    let mut out: Vec<EvalTask> = Vec::new();
    for t in it: tasks
        invariant
            it.seq() == all,
            out@.len() == it.index(),
            forall|k: int| 0 <= k < out@.len() ==> is_recycled(all[k], #[trigger] out@[k]),
    {
        let mut task = t;
        task.source = EvalTaskSource::BadcaseRecycle;
        out.push(task);
    }
    EvalSuite {
        id: "badcases".to_string(),
        name: "Badcase Regression Suite".to_string(),
        category: SuiteCategory::Regression,
        tasks: out,
        min_pass_rate: Double { bits: 0x3ff0_0000_0000_0000 },
        trials: 3,
        continuous_success_required: false,
        sampling_rate: Double { bits: 0x3ff0_0000_0000_0000 },
        tags: Vec::new(),
        agent_type: None,
        skill_designs: Vec::new(),
    }
}

/// An entry of a badcase file: read as a task, and as a record where it can be.
#[derive(Debug)]
pub struct BadcaseTask {
    pub task: EvalTask,
    pub record: Option<BadcaseRecord>,
}

/// Whether a task is one whose badcase is expired at a time. One without a record does
/// not expire.
pub open spec fn is_expired(e: BadcaseTask, max_age_days: u64, now: Timestamp) -> bool {
    e.record matches Some(r) && !is_fresh(r, max_age_days, now)
}

/// The positions of those of the first `n` entries that are not expired.
pub open spec fn unexpired_to(
    entries: Seq<BadcaseTask>,
    max_age_days: u64,
    now: Timestamp,
    n: int,
) -> Seq<int>
    decreases n,
{
    if n <= 0 || n > entries.len() {
        Seq::empty()
    } else if is_expired(entries[n - 1], max_age_days, now) {
        unexpired_to(entries, max_age_days, now, n - 1)
    } else {
        unexpired_to(entries, max_age_days, now, n - 1).push(n - 1)
    }
}

/// The records of some entries.
pub open spec fn records_of(entries: Seq<BadcaseTask>) -> Seq<BadcaseRecord>
    decreases entries.len(),
{
    if entries.len() == 0 {
        Seq::empty()
    } else {
        match entries.last().record {
            Some(r) => records_of(entries.drop_last()).push(r),
            None => records_of(entries.drop_last()),
        }
    }
}

/// The records of some entries that are not expired at a time.
pub open spec fn active_records(
    entries: Seq<BadcaseTask>,
    max_age_days: u64,
    now: Timestamp,
) -> Seq<BadcaseRecord> {
    fresh(records_of(entries), max_age_days, now)
}

/// The task that an entry goes back to.
pub open spec fn origin(e: BadcaseTask) -> Seq<char> {
    match e.record {
        Some(r) => r.task_id@,
        None => e.task.id@,
    }
}

/// The pass rate that the suite asks by itself.
pub open spec fn full_rate() -> Double {
    Double { bits: 0x3ff0_0000_0000_0000 }
}

/// A task as the governed suite has it: recycled, with its weighted number of trials,
/// and with a lowered pass rate where it fails often.
pub open spec fn governed_task(
    entries: Seq<BadcaseTask>,
    weighted: Seq<usize>,
    governance: BadcaseGovernance,
    now: Timestamp,
    k: int,
) -> EvalTask {
    EvalTask {
        source: EvalTaskSource::BadcaseRecycle,
        trials: Some(weighted[k]),
        min_pass_rate: governance.lowered_rate(
            task_count(
                active_records(entries, governance.max_age_days, now),
                origin(entries[k]),
            ),
            full_rate(),
        ),
        ..entries[k].task
    }
}

/// The tasks of the governed suite: those whose badcases are not expired.
pub open spec fn governed(
    entries: Seq<BadcaseTask>,
    weighted: Seq<usize>,
    governance: BadcaseGovernance,
    now: Timestamp,
) -> Seq<EvalTask> {
    unexpired_to(entries, governance.max_age_days, now, entries.len() as int).map_values(
        |k: int| governed_task(entries, weighted, governance, now, k),
    )
}

/// Whether a task of the governed suite is the one of an entry that is not expired.
pub open spec fn stays_as(
    entries: Seq<BadcaseTask>,
    weighted: Seq<usize>,
    governance: BadcaseGovernance,
    now: Timestamp,
    k: int,
    task: EvalTask,
) -> bool {
    &&& 0 <= k < entries.len()
    &&& !is_expired(entries[k], governance.max_age_days, now)
    &&& task == governed_task(entries, weighted, governance, now, k)
}

/// The regression suite of the badcase files under governance at a time, given the
/// weighted number of trials of each task. Exactly the tasks whose own badcase is
/// expired are left out. A task that fails often is asked a lowered pass rate; that of
/// the suite as a whole is lowered by badcases of the suite itself only.
pub fn load_governed_badcase_suite(
    entries: Vec<BadcaseTask>,
    governance: &BadcaseGovernance,
    now: Timestamp,
    weighted: &Vec<usize>,
) -> (r: EvalSuite)
    requires
        weighted@.len() == entries@.len(),
        governance.max_age_days * 86400 <= u64::MAX,
    ensures
        r.tasks@ == governed(entries@, weighted@, *governance, now),
        forall|task: EvalTask| #[trigger]
            r.tasks@.contains(task) <==> exists|k: int| #[trigger]
                stays_as(entries@, weighted@, *governance, now, k, task),
        r.min_pass_rate == governance.asked_rate(
            task_count(active_records(entries@, governance.max_age_days, now), "__suite__"@),
            full_rate(),
        ),
        r.id@ == "badcases"@,
        r.name@ == "Badcase Regression Suite"@,
        r.category == SuiteCategory::Regression,
        r.trials == 3,
        !r.continuous_success_required,
        r.sampling_rate.bits == 0x3ff0_0000_0000_0000,
        r.tags@.len() == 0,
        r.agent_type is None,
        r.skill_designs@.len() == 0,
{
    let ghost all = entries@;
    let ghost days = governance.max_age_days;
    let ghost places = unexpired_to(all, days, now, all.len() as int);
    let (active, unexpired) = split_entries(entries, governance, now);
    assert(active@ == active_records(all, days, now));
    let ghost parts = unexpired@;
    let mut kept: Vec<EvalTask> = Vec::new();
    proof {
        lemma_positions_below(all, days, now, all.len() as int);
    }
    for u in it: unexpired
        invariant
            it.seq() == parts,
            weighted@.len() == all.len(),
            days == governance.max_age_days,
            active@ == active_records(all, days, now),
            places == unexpired_to(all, days, now, all.len() as int),
            are_unexpired(all, places, parts),
            forall|j: int| 0 <= j < places.len() ==> 0 <= #[trigger] places[j] < all.len(),
            kept@.len() == it.index(),
            forall|j: int|
                0 <= j < kept@.len() ==> (EvalTask {
                    source: EvalTaskSource::BadcaseRecycle,
                    ..(#[trigger] kept@[j])
                }) == governed_task(all, weighted@, *governance, now, places[j]),
    {
        let ghost j = it.index();
        assert(is_unexpired(all[places[j]], parts[j]) && parts[j].place == places[j]);
        let Unexpired { task, origin, place } = u;
        let mut task = task;
        task.trials = Some(weighted[place]);
        task.min_pass_rate = governance.lowered_pass_rate(
            &origin,
            active.as_slice(),
            Double { bits: 0x3ff0_0000_0000_0000 },
        );
        kept.push(task);
    }
    let suite = load_badcase_suite(kept);
    let rate = governance.effective_pass_rate(
        "__suite__",
        active.as_slice(),
        suite.min_pass_rate,
    );
    assert(suite.tasks@ =~= governed(all, weighted@, *governance, now));
    proof {
        lemma_governed_tasks(all, weighted@, *governance, now);
    }
    EvalSuite {
        id: suite.id,
        name: suite.name,
        category: suite.category,
        tasks: suite.tasks,
        min_pass_rate: rate,
        trials: suite.trials,
        continuous_success_required: suite.continuous_success_required,
        sampling_rate: suite.sampling_rate,
        tags: suite.tags,
        agent_type: suite.agent_type,
        skill_designs: suite.skill_designs,
    }
}

/// A task that stays, with the task that it goes back to and its place.
struct Unexpired {
    task: EvalTask,
    origin: String,
    place: usize,
}

spec fn is_unexpired(e: BadcaseTask, u: Unexpired) -> bool {
    u.task == e.task && u.origin@ == origin(e)
}

spec fn are_unexpired(
    entries: Seq<BadcaseTask>,
    places: Seq<int>,
    found: Seq<Unexpired>,
) -> bool {
    &&& found.len() == places.len()
    &&& forall|j: int|
        #![trigger places[j]]
        #![trigger found[j]]
        0 <= j < found.len() ==> found[j].place == places[j] && is_unexpired(
            entries[places[j]],
            found[j],
        )
}

/// The records that are not expired, and the tasks of the entries that are not.
fn split_entries(
    entries: Vec<BadcaseTask>,
    governance: &BadcaseGovernance,
    now: Timestamp,
) -> (r: (Vec<BadcaseRecord>, Vec<Unexpired>))
    requires
        governance.max_age_days * 86400 <= u64::MAX,
    ensures
        r.0@ == active_records(entries@, governance.max_age_days, now),
        are_unexpired(
            entries@,
            unexpired_to(entries@, governance.max_age_days, now, entries@.len() as int),
            r.1@,
        ),
{
    let ghost all = entries@;
    let ghost days = governance.max_age_days;
    let cutoff: u128 = (governance.max_age_days * 86400) as u128 * 1_000_000_000;
    let today: u128 = now.secs as u128 * 1_000_000_000 + now.nanos as u128;
    let n = entries.len();
    let mut place: usize = 0;
    let mut active: Vec<BadcaseRecord> = Vec::new();
    let mut unexpired: Vec<Unexpired> = Vec::new();
    assert(active@ =~= fresh(records_of(all.take(0)), days, now)) by {
        reveal(Seq::filter);
    }
    for e in it: entries
        invariant
            it.seq() == all,
            n == all.len(),
            place == it.index(),
            today == now.total_nanos(),
            cutoff == days * 86400 * 1_000_000_000,
            active@ == fresh(records_of(all.take(it.index())), days, now),
            are_unexpired(all, unexpired_to(all, days, now, it.index()), unexpired@),
    {
        let ghost i = it.index();
        let ghost before = all.take(i);
        let ghost found = unexpired@;
        let ghost places = unexpired_to(all, days, now, i);
        proof {
            assert(all.take(i + 1).drop_last() =~= before);
            assert(all.take(i + 1).last() == e);
            assert(all[i] == e);
        }
        let BadcaseTask { task, record } = e;
        let mut expired = false;
        let mut origin = task.id.clone();
        if let Some(r) = record {
            let taken: u128 = r.collected_at.secs as u128 * 1_000_000_000
                + r.collected_at.nanos as u128;
            assert(taken == r.collected_at.total_nanos());
            proof {
                let p = |r: BadcaseRecord| is_fresh(r, days, now);
                records_of(before).lemma_filter_push(r, p);
            }
            origin = r.task_id.clone();
            if today < taken || today - taken < cutoff {
                active.push(r);
            } else {
                expired = true;
            }
        }
        if !expired {
            unexpired.push(Unexpired { task, origin, place });
            proof {
                let after = unexpired_to(all, days, now, i + 1);
                assert(after =~= places.push(i));
                assert forall|j: int|
                    #![trigger after[j]]
                    #![trigger unexpired@[j]]
                    0 <= j < unexpired@.len() implies unexpired@[j].place == after[j]
                    && is_unexpired(all[after[j]], unexpired@[j]) by {
                    if j < found.len() {
                        assert(after[j] == places[j]);
                        assert(unexpired@[j] == found[j]);
                    }
                }
            }
        }
        place += 1;
    }
    assert(all.take(all.len() as int) =~= all);
    (active, unexpired)
}

/// Exactly the tasks whose own badcase is expired are left out of the governed suite.
pub proof fn law_exactly_expired_tasks_leave(
    entries: Seq<BadcaseTask>,
    max_age_days: u64,
    now: Timestamp,
    n: int,
    k: int,
)
    requires
        0 <= k < n <= entries.len(),
    ensures
        unexpired_to(entries, max_age_days, now, n).contains(k) <==> !is_expired(
            entries[k],
            max_age_days,
            now,
        ),
    decreases n,
{
    lemma_positions_below(entries, max_age_days, now, n - 1);
    let before = unexpired_to(entries, max_age_days, now, n - 1);
    let all = unexpired_to(entries, max_age_days, now, n);
    if k < n - 1 {
        law_exactly_expired_tasks_leave(entries, max_age_days, now, n - 1, k);
        if before.contains(k) {
            let j = choose|j: int| 0 <= j < before.len() && before[j] == k;
            assert(all[j] == k);
        }
    } else if !is_expired(entries[k], max_age_days, now) {
        assert(all.last() == k);
    }
}

proof fn lemma_governed_tasks(
    entries: Seq<BadcaseTask>,
    weighted: Seq<usize>,
    governance: BadcaseGovernance,
    now: Timestamp,
)
    ensures
        forall|task: EvalTask| #[trigger]
            governed(entries, weighted, governance, now).contains(task) <==> exists|k: int|
                #[trigger]
                stays_as(entries, weighted, governance, now, k, task),
{
    let max_age_days = governance.max_age_days;
    let n = entries.len() as int;
    let at = unexpired_to(entries, max_age_days, now, n);
    let tasks = governed(entries, weighted, governance, now);
    lemma_positions_below(entries, max_age_days, now, n);
    assert forall|task: EvalTask| #[trigger] tasks.contains(task) <==> exists|k: int| #[trigger]
        stays_as(entries, weighted, governance, now, k, task) by {
        if tasks.contains(task) {
            let j = choose|j: int| 0 <= j < tasks.len() && tasks[j] == task;
            assert(at.contains(at[j]));
            law_exactly_expired_tasks_leave(entries, max_age_days, now, n, at[j]);
            assert(stays_as(entries, weighted, governance, now, at[j], task));
        }
        if exists|k: int| #[trigger] stays_as(entries, weighted, governance, now, k, task) {
            let k = choose|k: int| #[trigger]
                stays_as(entries, weighted, governance, now, k, task);
            law_exactly_expired_tasks_leave(entries, max_age_days, now, n, k);
            let j = choose|j: int| 0 <= j < at.len() && at[j] == k;
            assert(tasks[j] == task);
        }
    }
}

proof fn lemma_positions_below(
    entries: Seq<BadcaseTask>,
    max_age_days: u64,
    now: Timestamp,
    n: int,
)
    ensures
        forall|j: int|
            0 <= j < unexpired_to(entries, max_age_days, now, n).len() ==> 0
                <= #[trigger] unexpired_to(entries, max_age_days, now, n)[j] < n,
    decreases n,
{
    if 0 < n <= entries.len() {
        lemma_positions_below(entries, max_age_days, now, n - 1);
        let before = unexpired_to(entries, max_age_days, now, n - 1);
        let all = unexpired_to(entries, max_age_days, now, n);
        assert forall|j: int| 0 <= j < all.len() implies 0 <= #[trigger] all[j] < n by {
            if j < before.len() {
                assert(all[j] == before[j]);
            }
        }
    }
}

/// A badcase that was written to a file is out of the governed suite once it is as old
/// as the days allow: its entry, read back as a task and a record, is left out.
pub proof fn law_an_old_badcase_leaves_the_suite(
    record: BadcaseRecord,
    original: EvalTask,
    entries: Seq<BadcaseTask>,
    max_age_days: u64,
    now: Timestamp,
    k: int,
)
    requires
        0 <= k < entries.len(),
        entries[k].record matches Some(r) && reads_as_record(
            YamlModel::Mapping(task_entries(record, original)),
            r,
        ),
        now.total_nanos() - record.collected_at.total_nanos() >= max_age_days * 86400
            * 1_000_000_000,
    ensures
        !unexpired_to(entries, max_age_days, now, entries.len() as int).contains(k),
{
    law_written_badcases_are_records(record, original, entries[k].record->0);
    law_exactly_expired_tasks_leave(entries, max_age_days, now, entries.len() as int, k);
}

} // verus!

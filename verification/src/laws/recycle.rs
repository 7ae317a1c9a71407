//! Laws of the collection and the governance of badcases.
use vstd::prelude::*;

use crate::eval::dataset::{EvalSuite, EvalTask, EvalTaskSource};
use crate::eval::document::{tasks_of, tree_models, under, yaml_read, Tree, TreeModel};
use crate::eval::rca::{RcaPipeline, RcaResult};
use crate::eval::recycle::{
    analyses_to, badcase_file_name, badcase_record, cluster_badcases, cluster_key, cluster_of,
    clustered_by, condition_reasons, determine_failure_reason, entries_to,
    extract_rca_results_from_badcases, failed_to, failure_reasons, has_member, held, input_count,
    is_fresh, is_name_char, load_all_badcase_records, load_badcase_suite,
    load_governed_badcase_suite, members, name_chars, reason_count, sanitize_id, status_name,
    stays_as, task_count, task_ids, write_badcase_yaml, written_count, written_entry,
    BadcaseCluster, BadcaseCollector, BadcaseFixStatus, BadcaseGovernance, BadcaseRecord,
    BadcaseTask, ClusterKey,
};
use crate::eval::types::{ConditionResult, Timestamp, TrialResult};
use crate::gateway::config::optimizer::BadcaseGovernanceConfig;
use crate::laws::text::{
    law_a_text_occurs_where_it_stands, law_what_is_joined_holds_its_parts, lemma_occurs_in_more,
    lemma_occurs_through,
};
use crate::path::path_below;
use crate::scalar::{is_nan, rank, Double};
use crate::text::{joined, lemma_filter_has, occurs, opt_text, texts};

verus! {

/// A badcase stays until it is as old as the governance allows, counted in days
/// from when it was collected; one from a time to come stays too. Nothing else is
/// left out, and nothing comes in.
pub proof fn law_a_badcase_stays_until_its_age(
    governance: &BadcaseGovernance,
    records: Vec<BadcaseRecord>,
    now: Timestamp,
    r: Vec<BadcaseRecord>,
    x: BadcaseRecord,
)
    requires
        call_ensures(BadcaseGovernance::filter_expired_at, (governance, records, now), r),
    ensures
        r@.contains(x) ==> records@.contains(x),
        records@.contains(x) ==> (r@.contains(x) <==> (now.secs * 1_000_000_000 + now.nanos) - (
        x.collected_at.secs * 1_000_000_000 + x.collected_at.nanos) < governance.max_age_days
            * 86_400_000_000_000 || now.secs * 1_000_000_000 + now.nanos < x.collected_at.secs
            * 1_000_000_000 + x.collected_at.nanos),
        r@.len() <= records@.len(),
{
    let p = |b: BadcaseRecord| is_fresh(b, governance.max_age_days, now);
    lemma_filter_has(records@, p, x);
    records@.lemma_filter_len(p);
    assert(governance.max_age_days * 86400 * 1_000_000_000 == governance.max_age_days
        * 86_400_000_000_000) by (nonlinear_arith);
}

/// How often an input occurs among badcases, and a task, grows by one with each
/// that has it and stays with any other.
pub proof fn law_occurrences_are_counted(
    records: Seq<BadcaseRecord>,
    one: BadcaseRecord,
    tasks: Seq<EvalTask>,
    task: EvalTask,
    text: Seq<char>,
)
    ensures
        input_count(Seq::empty(), text) == 0,
        task_count(Seq::empty(), text) == 0,
        written_count(Seq::empty(), text) == 0,
        input_count(records.push(one), text) == input_count(records, text) + (if one.input@
            == text {
            1int
        } else {
            0
        }),
        task_count(records.push(one), text) == task_count(records, text) + (if one.task_id@
            == text {
            1int
        } else {
            0
        }),
        written_count(tasks.push(task), text) == written_count(tasks, text) + (if task.input@
            == text {
            1int
        } else {
            0
        }),
{
    assert(records.push(one).drop_last() =~= records);
    assert(tasks.push(task).drop_last() =~= tasks);
}

/// An input is a duplicate once it was collected as often as is allowed, and not
/// before.
pub proof fn law_an_input_is_a_duplicate_at_its_maximum(
    governance: &BadcaseGovernance,
    input: &str,
    existing: &[BadcaseRecord],
    r: bool,
)
    requires
        call_ensures(BadcaseGovernance::is_duplicate, (governance, input, existing), r),
    ensures
        r <==> input_count(existing@, input@) >= governance.max_duplicate_inputs,
        existing@.len() == 0 && governance.max_duplicate_inputs > 0 ==> !r,
{
}

/// A task is asked for less only once it failed often enough, and then for the
/// lowered rate or the usual one, whichever is less; until then it is asked for
/// the usual rate.
pub proof fn law_a_rate_is_lowered_only_by_failures(
    governance: &BadcaseGovernance,
    task_id: &str,
    records: &[BadcaseRecord],
    usual: Double,
    r: Double,
    lowered: Option<Double>,
)
    requires
        call_ensures(
            BadcaseGovernance::effective_pass_rate,
            (governance, task_id, records, usual),
            r,
        ),
        call_ensures(
            BadcaseGovernance::lowered_pass_rate,
            (governance, task_id, records, usual),
            lowered,
        ),
    ensures
        task_count(records@, task_id@) < governance.downgrade_threshold ==> r == usual
            && lowered is None,
        task_count(records@, task_id@) >= governance.downgrade_threshold ==> lowered == Some(r) && (
        r == usual || r == governance.downgraded_pass_rate),
        task_count(records@, task_id@) >= governance.downgrade_threshold && !is_nan(usual)
            && !is_nan(governance.downgraded_pass_rate) ==> rank(r) <= rank(usual) && rank(r)
            <= rank(governance.downgraded_pass_rate),
{
}

/// A difficulty has the weight that is listed for it, and the default one only
/// where none is; both come from the configuration.
pub proof fn law_a_difficulty_has_its_own_weight(
    c: &BadcaseGovernanceConfig,
    governance: BadcaseGovernance,
    difficulty: &str,
    r: Double,
)
    requires
        call_ensures(BadcaseGovernance::from_config, (c,), governance),
        call_ensures(BadcaseGovernance::weight_for, (&governance, difficulty), r),
    ensures
        c.difficulty_weights@.dom().contains(difficulty@) ==> r
            == c.difficulty_weights@[difficulty@],
        !c.difficulty_weights@.dom().contains(difficulty@) ==> r == c.default_weight,
{
}

/// Why a trial failed is told in full: every condition that did not hold, by its
/// detail or else by what was found; every weakness that the critique names; the
/// skill and the session where they failed. Nothing is told of what passed.
pub proof fn law_every_reason_of_a_failure_is_told(trial: &TrialResult, r: String, i: int)
    requires
        call_ensures(determine_failure_reason, (trial,), r),
    ensures
        !trial.conditions_passed && 0 <= i < trial.condition_results@.len()
            && !trial.condition_results@[i].passed ==> occurs(
            r@,
            if trial.condition_results@[i].detail@.len() > 0 {
                trial.condition_results@[i].detail@
            } else {
                trial.condition_results@[i].actual@
            },
        ),
        !trial.critique_passed && trial.critique is Some && 0 <= i
            < trial.critique->0.weaknesses@.len() ==> occurs(
            r@,
            trial.critique->0.weaknesses@[i]@,
        ),
        !trial.critique_passed && trial.critique is None ==> occurs(r@, "critique failed"@),
        !trial.skill_passed ==> occurs(r@, "skill evaluation failed"@),
        !trial.session_conditions_passed ==> occurs(r@, "session conditions failed"@),
        trial.conditions_passed && trial.critique_passed && trial.skill_passed
            && trial.session_conditions_passed ==> r@ == "trial failed: unknown reason"@,
        trial.conditions_passed && trial.critique_passed && !trial.skill_passed
            && trial.session_conditions_passed ==> r@ == "skill evaluation failed"@,
        trial.conditions_passed && trial.critique_passed && trial.skill_passed
            && !trial.session_conditions_passed ==> r@ == "session conditions failed"@,
{
    let v = trial.condition_results@;
    let failed = condition_reasons(v, v.len() as int);
    let a = crate::eval::recycle::with(
        Seq::empty(),
        !trial.conditions_passed && failed.len() > 0,
        "conditions: "@ + joined(failed, "; "@),
    );
    let said = crate::eval::recycle::critique_reason(*trial);
    let b = crate::eval::recycle::with(a, !trial.critique_passed, said);
    let c = crate::eval::recycle::with(b, !trial.skill_passed, "skill evaluation failed"@);
    let d = failure_reasons(*trial);
    lemma_condition_reasons(v, v.len() as int);
    let none = Seq::<char>::empty();
    if !trial.conditions_passed && 0 <= i < v.len() && !v[i].passed {
        let told = if v[i].detail@.len() > 0 {
            v[i].detail@
        } else {
            v[i].actual@
        };
        let k = choose|k: int| 0 <= k < failed.len() && occurs(#[trigger] failed[k], told);
        law_what_is_joined_holds_its_parts(failed, "; "@, k);
        lemma_occurs_through(joined(failed, "; "@), failed[k], told);
        lemma_occurs_in_more("conditions: "@, joined(failed, "; "@), none, told);
        assert("conditions: "@ + joined(failed, "; "@) + none =~= a[0]);
        assert(d[0] == a[0]);
        law_what_is_joined_holds_its_parts(d, "; "@, 0);
        lemma_occurs_through(joined(d, "; "@), d[0], told);
    }
    if !trial.critique_passed {
        let at = b.len() - 1;
        assert(d[at] == said);
        law_what_is_joined_holds_its_parts(d, "; "@, at);
        if trial.critique is Some && 0 <= i < trial.critique->0.weaknesses@.len() {
            let list = texts(trial.critique->0.weaknesses@);
            assert(list[i] == trial.critique->0.weaknesses@[i]@);
            law_what_is_joined_holds_its_parts(list, "; "@, i);
            lemma_occurs_in_more("critique: "@, joined(list, "; "@), none, list[i]);
            assert("critique: "@ + joined(list, "; "@) + none =~= said);
            lemma_occurs_through(joined(d, "; "@), said, list[i]);
        }
    }
    if !trial.skill_passed {
        let at = c.len() - 1;
        assert(d[at] == "skill evaluation failed"@);
        law_what_is_joined_holds_its_parts(d, "; "@, at);
    }
    if !trial.session_conditions_passed {
        law_what_is_joined_holds_its_parts(d, "; "@, d.len() - 1);
    }
}

proof fn lemma_condition_reasons(v: Seq<ConditionResult>, n: int)
    requires
        0 <= n <= v.len(),
    ensures
        forall|i: int|
            0 <= i < n && !(#[trigger] v[i]).passed ==> exists|k: int|
                0 <= k < condition_reasons(v, n).len() && occurs(
                    #[trigger] condition_reasons(v, n)[k],
                    if v[i].detail@.len() > 0 {
                        v[i].detail@
                    } else {
                        v[i].actual@
                    },
                ),
    decreases n,
{
    if n > 0 {
        lemma_condition_reasons(v, n - 1);
        let now = condition_reasons(v, n);
        let less = condition_reasons(v, n - 1);
        assert forall|i: int| 0 <= i < n && !(#[trigger] v[i]).passed implies exists|k: int|
            0 <= k < now.len() && occurs(
                #[trigger] now[k],
                if v[i].detail@.len() > 0 {
                    v[i].detail@
                } else {
                    v[i].actual@
                },
            ) by {
            let told = if v[i].detail@.len() > 0 {
                v[i].detail@
            } else {
                v[i].actual@
            };
            if i == n - 1 {
                let none = Seq::<char>::empty();
                if v[i].detail@.len() > 0 {
                    law_a_text_occurs_where_it_stands(
                        "condition failed: "@,
                        told,
                        none,
                        now.last(),
                    );
                    assert("condition failed: "@ + told + none =~= now.last());
                } else {
                    law_a_text_occurs_where_it_stands(
                        "condition failed: actual '"@,
                        told,
                        "'"@,
                        now.last(),
                    );
                }
                assert(occurs(now[now.len() - 1], told));
            } else {
                let k = choose|k: int| 0 <= k < less.len() && occurs(#[trigger] less[k], told);
                assert(now[k] == less[k]);
            }
        }
    }
}

/// What is collected of the trials are those that failed, each once and in their
/// order.
pub proof fn law_the_failed_trials_are_collected(
    collector: &BadcaseCollector,
    trials: &[TrialResult],
    r: Vec<usize>,
    i: usize,
)
    requires
        call_ensures(BadcaseCollector::collect, (collector, trials), r),
        trials@.len() <= usize::MAX,
    ensures
        r@.contains(i) <==> i < trials@.len() && !trials@[i as int].passed,
        forall|j: int, k: int| 0 <= j < k < r@.len() ==> #[trigger] r@[j] < #[trigger] r@[k],
{
    lemma_failed(trials@, trials@.len() as int, i);
}

proof fn lemma_failed(trials: Seq<TrialResult>, n: int, i: usize)
    requires
        0 <= n <= trials.len() <= usize::MAX,
    ensures
        failed_to(trials, n).contains(i) <==> i < n && !trials[i as int].passed,
        forall|j: int, k: int|
            0 <= j < k < failed_to(trials, n).len() ==> #[trigger] failed_to(trials, n)[j]
                < #[trigger] failed_to(trials, n)[k],
        forall|j: int| 0 <= j < failed_to(trials, n).len() ==> (#[trigger] failed_to(trials, n)[j])
            < n,
    decreases n,
{
    if n > 0 {
        lemma_failed(trials, n - 1, i);
        let less = failed_to(trials, n - 1);
        let now = failed_to(trials, n);
        if !trials[n - 1].passed {
            assert(now =~= less.push((n - 1) as usize));
            if i == n - 1 {
                assert(now[now.len() - 1] == i);
            } else if less.contains(i) {
                let k = choose|k: int| 0 <= k < less.len() && less[k] == i;
                assert(now[k] == i);
            }
            if now.contains(i) && i != n - 1 {
                let k = choose|k: int| 0 <= k < now.len() && now[k] == i;
                assert(less[k] == i);
            }
        }
    }
}

/// Under governance the first failed trials are collected, as many as there is
/// room for below the maximum of the input, and all of them where there is room
/// enough.
pub proof fn law_governance_collects_while_there_is_room(
    collector: &BadcaseCollector,
    trials: &[TrialResult],
    task: &EvalTask,
    governance: &BadcaseGovernance,
    existing: &[BadcaseRecord],
    written: &[EvalTask],
    all: Vec<usize>,
    r: Vec<usize>,
)
    requires
        call_ensures(BadcaseCollector::collect, (collector, trials), all),
        call_ensures(
            BadcaseCollector::collect_and_govern,
            (collector, trials, task, governance, existing, written),
            r,
        ),
    ensures
        r@.is_prefix_of(all@),
        input_count(existing@, task.input@) >= governance.max_duplicate_inputs ==> r@.len() == 0,
        written_count(written@, task.input@) >= governance.max_duplicate_inputs ==> r@.len() == 0,
        input_count(existing@, task.input@) + all@.len() <= governance.max_duplicate_inputs
            && written_count(written@, task.input@) + all@.len() <= governance.max_duplicate_inputs
            ==> r@ == all@,
        r@.len() < all@.len() ==> r@.len() + input_count(existing@, task.input@)
            >= governance.max_duplicate_inputs || r@.len() + written_count(written@, task.input@)
            >= governance.max_duplicate_inputs,
{
}

/// A badcase records the task that failed, how it was answered and why it failed;
/// it is new and unconfirmed, and analyzed just where an analysis is given.
pub proof fn law_a_badcase_records_its_trial(
    task: &EvalTask,
    trial: &TrialResult,
    analysis: Option<RcaResult>,
    now: Timestamp,
    r: BadcaseRecord,
    reason: String,
)
    requires
        call_ensures(badcase_record, (task, trial, analysis, now), r),
        call_ensures(determine_failure_reason, (trial,), reason),
    ensures
        r.task_id@ == task.id@,
        r.input@ == task.input@,
        r.description@ == task.description@,
        r.difficulty@ == task.difficulty@,
        texts(r.coverage@) == texts(task.coverage@),
        r.response@ == trial.response@,
        r.failure_reason@ == reason@,
        r.rca_performed <==> analysis is Some,
        r.rca_result == analysis,
        r.collected_at == now,
        r.fix_status == BadcaseFixStatus::Unconfirmed,
        r.entry is AutoDetected,
        task.id@.is_prefix_of(r.id@),
{
    assert(r.id@.take(task.id@.len() as int) =~= task.id@);
}

/// Whether a text is the part of an id that begins at a place, with an underscore
/// for each character that may not stand in a name.
pub open spec fn is_cleaned(id: Seq<char>, from: int, s: Seq<char>) -> bool {
    0 <= from <= id.len() - s.len() && forall|i: int|
        0 <= i < s.len() ==> #[trigger] s[i] == (if is_name_char(id[from + i]) {
            id[from + i]
        } else {
            '_'
        })
}

/// An id that is clean already stays as it is; in any other each character that
/// may stand in a name stays in its place, but for underscores at the ends.
pub proof fn law_a_clean_id_stays(id: &str, r: String)
    requires
        call_ensures(sanitize_id, (id,), r),
    ensures
        id@.len() > 0 && (forall|i: int| 0 <= i < id@.len() ==> is_name_char(#[trigger] id@[i]))
            && id@[0] != '_' && id@.last() != '_' ==> r@ == id@,
        r@.len() <= id@.len(),
        exists|k: int| #[trigger] is_cleaned(id@, k, r@),
{
    let s = name_chars(id@);
    crate::laws::text::lemma_past_char(s, '_', 0);
    let from = crate::text::past_char(s, '_', 0);
    crate::laws::text::lemma_before_char(s, '_', from, s.len() as int);
    let to = crate::text::before_char(s, '_', from, s.len() as int);
    assert(r@ =~= s.subrange(from, to));
    assert(is_cleaned(id@, from, r@));
    if id@.len() > 0 && (forall|i: int| 0 <= i < id@.len() ==> is_name_char(#[trigger] id@[i]))
        && id@[0] != '_' && id@.last() != '_' {
        assert(s =~= id@);
        assert(from == 0);
        assert(r@ =~= id@);
    }
}

/// A badcase is in the cluster of the module that its analysis holds responsible
/// and of the phenomenon that it names; one without an analysis is in a cluster
/// of no module.
pub proof fn law_a_badcase_is_in_its_cluster(
    records: &[BadcaseRecord],
    r: Vec<BadcaseCluster>,
    i: int,
)
    requires
        call_ensures(cluster_badcases, (records,), r),
        0 <= i < records@.len(),
    ensures
        exists|k: int| 0 <= k < r@.len() && #[trigger] in_cluster(records@[i], r@[k]),
        forall|j: int, k: int|
            0 <= j < k < r@.len() ==> (#[trigger] r@[j]).count >= (#[trigger] r@[k]).count,
{
    let keys = choose|keys: Seq<ClusterKey>| #[trigger] clustered_by(records@, r@, keys);
    let key = cluster_key(records@[i]);
    assert(has_member(records@, key));
    assert(keys.contains(key));
    let k = choose|k: int| 0 <= k < keys.len() && keys[k] == key;
    assert(cluster_of(records@, keys[k], r@[k]));
    lemma_is_member(records@, i);
    let group = members(records@, key);
    let at = choose|at: int| 0 <= at < group.len() && group[at] == records@[i];
    assert(task_ids(group)[at] == records@[i].task_id@);
    assert(texts(r@[k].task_ids@)[at] == records@[i].task_id@);
    assert(texts(r@[k].task_ids@).contains(records@[i].task_id@));
    assert forall|p: crate::eval::rca::ProblemPhenomenon|
        key.phenomenon == #[trigger] p.named() implies r@[k].phenomenon == Some(p) by {
        crate::laws::attribution::law_phenomena_read_back(p, key.phenomenon);
    }
    assert(in_cluster(records@[i], r@[k]));
}

/// Whether a cluster is that of a badcase, and lists its task.
pub open spec fn in_cluster(b: BadcaseRecord, c: BadcaseCluster) -> bool {
    &&& texts(c.task_ids@).contains(b.task_id@)
    &&& b.rca_result is None ==> c.primary_module is None
    &&& b.rca_result matches Some(a) ==> c.primary_module == Some(a.responsibility_module) && (
    forall|p: crate::eval::rca::ProblemPhenomenon|
        a.phenomenon@ == #[trigger] p.named() ==> c.phenomenon == Some(p))
}

proof fn lemma_is_member(records: Seq<BadcaseRecord>, i: int)
    requires
        0 <= i < records.len(),
    ensures
        members(records, cluster_key(records[i])).contains(records[i]),
    decreases records.len(),
{
    let key = cluster_key(records[i]);
    let now = members(records, key);
    if i == records.len() - 1 {
        assert(now.last() == records[i]);
    } else {
        let less = records.drop_last();
        assert(less[i] == records[i]);
        lemma_is_member(less, i);
        let k = choose|k: int| 0 <= k < members(less, key).len() && members(less, key)[k]
            == records[i];
        assert(now[k] == records[i]);
    }
}

/// A task of the governed suite is one of the badcases that are not too old: the
/// same task, marked as recycled, with the trials that its weight gives it.
pub proof fn law_governed_tasks_are_the_badcases(
    entries: Vec<BadcaseTask>,
    governance: &BadcaseGovernance,
    now: Timestamp,
    weighted: &Vec<usize>,
    r: EvalSuite,
    task: EvalTask,
)
    requires
        call_ensures(load_governed_badcase_suite, (entries, governance, now, weighted), r),
        r.tasks@.contains(task),
    ensures
        exists|k: int|
            0 <= k < entries@.len() && {
                let e = #[trigger] entries@[k];
                &&& task.id == e.task.id
                &&& task.input == e.task.input
                &&& task.conditions == e.task.conditions
                &&& task.criteria == e.task.criteria
                &&& task.source == EvalTaskSource::BadcaseRecycle
                &&& task.trials == Some(weighted@[k])
                &&& e.record matches Some(b) ==> (now.secs * 1_000_000_000 + now.nanos) - (
                b.collected_at.secs * 1_000_000_000 + b.collected_at.nanos)
                    < governance.max_age_days * 86_400_000_000_000 || now.secs * 1_000_000_000
                    + now.nanos < b.collected_at.secs * 1_000_000_000 + b.collected_at.nanos
            },
{
    let k = choose|k: int| #[trigger]
        stays_as(entries@, weighted@, *governance, now, k, task);
    assert(stays_as(entries@, weighted@, *governance, now, k, task));
    assert(governance.max_age_days * 86400 * 1_000_000_000 == governance.max_age_days
        * 86_400_000_000_000) by (nonlinear_arith);
    let e = entries@[k];
    assert(task.id == e.task.id);
}

/// The suite of all badcases holds each of them, the same but marked as recycled,
/// and asks that every trial passes.
pub proof fn law_every_badcase_is_in_the_suite(tasks: Vec<EvalTask>, r: EvalSuite, i: int)
    requires
        call_ensures(load_badcase_suite, (tasks,), r),
        0 <= i < tasks@.len(),
    ensures
        r.tasks@.len() == tasks@.len(),
        r.tasks@[i].id == tasks@[i].id,
        r.tasks@[i].input == tasks@[i].input,
        r.tasks@[i].conditions == tasks@[i].conditions,
        r.tasks@[i].criteria == tasks@[i].criteria,
        r.tasks@[i].source == EvalTaskSource::BadcaseRecycle,
        r.min_pass_rate.bits == 0x3ff0_0000_0000_0000,
{
    assert(crate::eval::recycle::is_recycled(tasks@[i], r.tasks@[i]));
}

/// What a badcase file gets is what it had, in its order, and the new entry behind
/// that; the entry holds what was recorded of the failure and what the task asks.
pub proof fn law_a_file_gets_the_new_badcase_at_its_end(
    existing: &Option<String>,
    record: &BadcaseRecord,
    original: &EvalTask,
    r: Tree,
    i: int,
)
    requires
        call_ensures(write_badcase_yaml, (existing, record, original), r),
    ensures
        ({
            let after = tasks_of(Some(r@));
            &&& *existing is None ==> after.len() == 1
            &&& *existing is Some ==> after.len() == tasks_of(yaml_read(existing->0@)).len() + 1
                && (0 <= i < after.len() - 1 ==> after[i] == tasks_of(yaml_read(existing->0@))[i])
            &&& after.last() == written_entry(*record, *original)
        }),
{
    crate::eval::document::law_a_document_lists_its_tasks(
        held(opt_text(*existing)).push(written_entry(*record, *original)),
    );
}

/// The records of all files are those of each file, file by file.
pub proof fn law_every_file_gives_its_records(
    files: &[String],
    r: Vec<Tree>,
    a: Vec<Tree>,
    i: int,
    x: TreeModel,
)
    requires
        call_ensures(load_all_badcase_records, (files,), r),
        call_ensures(extract_rca_results_from_badcases, (files,), a),
        0 <= i < files@.len(),
        tasks_of(yaml_read(files@[i]@)).contains(x),
    ensures
        tree_models(r@).contains(x),
        under(x, "rca_result"@) is Some ==> tree_models(a@).contains(under(x, "rca_result"@)->0),
{
    let names = texts(files@);
    assert(names[i] == files@[i]@);
    let n = files@.len() as int;
    lemma_entries(names, n, i, x);
    let entries = entries_to(names, n);
    if under(x, "rca_result"@) is Some {
        let k = choose|k: int| 0 <= k < entries.len() && entries[k] == x;
        lemma_analyses(entries, entries.len() as int, k);
    }
}

proof fn lemma_entries(files: Seq<Seq<char>>, n: int, i: int, x: TreeModel)
    requires
        0 <= i < n <= files.len(),
        tasks_of(yaml_read(files[i])).contains(x),
    ensures
        entries_to(files, n).contains(x),
    decreases n,
{
    let now = entries_to(files, n);
    let less = entries_to(files, n - 1);
    let own = tasks_of(yaml_read(files[n - 1]));
    if i == n - 1 {
        let k = choose|k: int| 0 <= k < own.len() && own[k] == x;
        assert(now[less.len() + k] == x);
    } else {
        lemma_entries(files, n - 1, i, x);
        let k = choose|k: int| 0 <= k < less.len() && less[k] == x;
        assert(now[k] == x);
    }
}

proof fn lemma_analyses(entries: Seq<TreeModel>, n: int, k: int)
    requires
        0 <= k < n <= entries.len(),
        under(entries[k], "rca_result"@) is Some,
    ensures
        analyses_to(entries, n).contains(under(entries[k], "rca_result"@)->0),
    decreases n,
{
    let now = analyses_to(entries, n);
    let less = analyses_to(entries, n - 1);
    let a = under(entries[k], "rca_result"@)->0;
    if k == n - 1 {
        assert(now.last() == a);
    } else {
        lemma_analyses(entries, n - 1, k);
        let j = choose|j: int| 0 <= j < less.len() && less[j] == a;
        assert(now[j] == a);
    }
}

/// A collector keeps its analysis, and writes where it is told or else among the
/// evaluations; the file of a task bears the clean form of its id.
pub proof fn law_a_collector_writes_where_it_is_told(
    pipeline: Option<RcaPipeline>,
    dir: Option<String>,
    evals_dir: &str,
    c: BadcaseCollector,
    out: &String,
    task_id: &str,
    clean: String,
    file: String,
)
    requires
        call_ensures(BadcaseCollector::new, (pipeline, dir, evals_dir), c),
        call_ensures(BadcaseCollector::output_dir, (&c,), out),
        call_ensures(sanitize_id, (task_id,), clean),
        call_ensures(badcase_file_name, (task_id,), file),
    ensures
        dir is Some ==> out@ == dir->0@,
        dir is None ==> out@ == path_below(evals_dir@, "badcases"@),
        c.analysis() == pipeline,
        file@ == clean@ + ".yaml"@,
{
}

/// A status goes by its own name.
pub proof fn law_states_of_repair_go_by_their_names(s: BadcaseFixStatus, t: BadcaseFixStatus)
    ensures
        status_name(s) == status_name(t) <==> s == t,
        s is Unconfirmed ==> status_name(s) == "Unconfirmed"@,
        s is Confirmed ==> status_name(s) == "Confirmed"@,
        s is Fixed ==> status_name(s) == "Fixed"@,
        s is Verified ==> status_name(s) == "Verified"@,
{
    reveal_strlit("Unconfirmed");
    reveal_strlit("Confirmed");
    reveal_strlit("Fixed");
    reveal_strlit("Verified");
    assert("Unconfirmed"@.len() == 11 && "Confirmed"@.len() == 9 && "Fixed"@.len() == 5
        && "Verified"@.len() == 8);
}

/// An id of letters, digits, hyphens and underscores that an underscore neither
/// begins nor ends stays as it is; a character that is none of these becomes an
/// underscore, as a blank or a slash does.
pub proof fn law_plain_ids_stay(id: &str, r: String, a: Seq<char>, c: char, b: Seq<char>)
    requires
        call_ensures(sanitize_id, (id,), r),
        is_plain_text(a) && a.len() > 0 && a[0] != '_',
        is_plain_text(b) && b.len() > 0 && b.last() != '_',
        c == ' ' || c == '/' || c == '.' || c == ':',
    ensures
        id@ == a + b ==> r@ == id@,
        id@ == a + seq![c] + b ==> r@ == a + seq!['_'] + b,
{
    let s = name_chars(id@);
    crate::laws::text::lemma_past_char(s, '_', 0);
    let from = crate::text::past_char(s, '_', 0);
    crate::laws::text::lemma_before_char(s, '_', from, s.len() as int);
    if id@ == a + b {
        assert forall|i: int| 0 <= i < id@.len() implies s[i] == id@[i] by {
            if i < a.len() {
                assert(id@[i] == a[i]);
            } else {
                assert(id@[i] == b[i - a.len()]);
            }
        }
        assert(s =~= id@);
        assert(s[0] == a[0]);
        assert(s.last() == b.last());
        assert(r@ =~= id@);
    }
    if id@ == a + seq![c] + b {
        let t = a + seq!['_'] + b;
        assert forall|i: int| 0 <= i < id@.len() implies s[i] == t[i] by {
            if i < a.len() {
                assert(id@[i] == a[i]);
            } else if i == a.len() {
                assert(id@[i] == c);
            } else {
                assert(id@[i] == b[i - a.len() - 1]);
            }
        }
        assert(s =~= t);
        assert(s[0] == a[0]);
        assert(s.last() == b.last());
        assert(r@ =~= t);
    }
}

/// Whether a text is made of letters, digits, hyphens and underscores.
pub open spec fn is_plain_text(s: Seq<char>) -> bool {
    forall|i: int|
        0 <= i < s.len() ==> ('a' <= #[trigger] s[i] <= 'z' || 'A' <= s[i] <= 'Z' || '0' <= s[i]
            <= '9' || s[i] == '-' || s[i] == '_')
}

/// How often a reason occurs grows by one with each badcase that has it.
pub proof fn law_reasons_are_counted(
    records: Seq<BadcaseRecord>,
    one: BadcaseRecord,
    reason: Seq<char>,
)
    ensures
        reason_count(Seq::empty(), reason) == 0,
        reason_count(records.push(one), reason) == reason_count(records, reason) + (
        if one.failure_reason@ == reason {
            1int
        } else {
            0
        }),
{
    assert(records.push(one).drop_last() =~= records);
}

/// The reason that a cluster is shown with is one of its badcases' reasons, and no
/// other occurs more often among them.
pub proof fn law_a_cluster_shows_its_commonest_reason(
    records: &[BadcaseRecord],
    r: Vec<BadcaseCluster>,
    k: int,
)
    requires
        call_ensures(cluster_badcases, (records,), r),
        0 <= k < r@.len(),
    ensures
        exists|key: ClusterKey|
            #[trigger] members(records@, key).len() == r@[k].count && (exists|i: int|
                0 <= i < members(records@, key).len() && (#[trigger] members(
                    records@,
                    key,
                )[i]).failure_reason@ == r@[k].common_failure_reason@) && (forall|i: int|
                0 <= i < members(records@, key).len() ==> reason_count(
                    members(records@, key),
                    (#[trigger] members(records@, key)[i]).failure_reason@,
                ) <= reason_count(members(records@, key), r@[k].common_failure_reason@)),
        forall|i: int|
            0 <= i < r@[k].task_ids@.len() ==> exists|j: int|
                0 <= j < records@.len() && (#[trigger] records@[j]).task_id@ == (
                #[trigger] r@[k].task_ids@[i])@,
{
    let keys = choose|keys: Seq<ClusterKey>| #[trigger] clustered_by(records@, r@, keys);
    assert(cluster_of(records@, keys[k], r@[k]));
    let key = keys[k];
    let group = members(records@, key);
    assert(group.len() == r@[k].count);
    assert forall|i: int| 0 <= i < r@[k].task_ids@.len() implies exists|j: int|
        0 <= j < records@.len() && (#[trigger] records@[j]).task_id@ == (
        #[trigger] r@[k].task_ids@[i])@ by {
        assert(texts(r@[k].task_ids@).len() == r@[k].task_ids@.len());
        assert(task_ids(group).len() == group.len());
        assert(texts(r@[k].task_ids@)[i] == r@[k].task_ids@[i]@);
        assert(task_ids(group)[i] == group[i].task_id@);
        lemma_members_are_records(records@, key, i);
        let j = choose|j: int| 0 <= j < records@.len() && #[trigger] records@[j] == group[i];
        assert(records@[j].task_id@ == r@[k].task_ids@[i]@);
    }
}

proof fn lemma_members_are_records(records: Seq<BadcaseRecord>, key: ClusterKey, i: int)
    requires
        0 <= i < members(records, key).len(),
    ensures
        exists|j: int|
            0 <= j < records.len() && #[trigger] records[j] == members(records, key)[i]
                && cluster_key(records[j]) == key,
    decreases records.len(),
{
    let less = records.drop_last();
    let now = members(records, key);
    if i < members(less, key).len() {
        lemma_members_are_records(less, key, i);
        let j = choose|j: int|
            0 <= j < less.len() && #[trigger] less[j] == members(less, key)[i] && cluster_key(
                less[j],
            ) == key;
        assert(records[j] == less[j]);
        assert(now[i] == members(less, key)[i]);
    } else {
        assert(records[records.len() - 1] == now[i]);
    }
}

} // verus!

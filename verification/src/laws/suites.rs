//! Laws of suites and of the calibration of the judge.
use vstd::prelude::*;

use crate::eval::calibration::{
    calibrate, compared_reports, detect_drift, evaluate_case, history_lines, lines_to,
    load_calibration_cases, match_count, matching_verdicts, Averages, CalibrationCase,
    CalibrationCaseYaml, CalibrationReport, CalibrationResult, Change, Judgement,
};
use crate::eval::dataset::{EvalSuite, EvalTask, SuiteCategory};
use crate::eval::loader::{parse_category, LoadedTaskFile, ResolvedEntry, YamlManifest};
use crate::eval::suites::{
    display_name, entry_key, gather_tasks, gathered, gathered_designs, load_suite, matching_tasks, sort_entries,
    sorted_once,
};
use crate::eval::types::Timestamp;
use crate::json::Json;
use crate::path::components;
use crate::text::{lemma_filter_has, occurs, opt_text, pieces, texts, trimmed};

verus! {

/// A suite goes by the name that was asked for, else by its own, else by that of
/// its file; what its manifest leaves open is filled in: a rate of 0.8, and every
/// task sampled. Its tasks are those that were gathered.
pub proof fn law_a_suite_is_what_its_manifest_says(
    manifest: YamlManifest,
    asked: &str,
    base: Option<String>,
    tasks: Vec<EvalTask>,
    designs: Vec<Json>,
    r: EvalSuite,
)
    requires
        call_ensures(load_suite, (manifest, asked, base, tasks, designs), r),
    ensures
        asked@.len() > 0 ==> r.id@ == asked@,
        asked@.len() == 0 && manifest.name is Some && manifest.name->0@.len() > 0 ==> r.id@
            == manifest.name->0@,
        asked@.len() == 0 && (manifest.name is None || manifest.name->0@.len() == 0) && base is Some
            ==> r.id@ == base->0@,
        manifest.name is Some ==> r.name@ == manifest.name->0@,
        r.tasks@ == tasks@,
        r.skill_designs@ == designs@,
        manifest.min_pass_rate is Some ==> r.min_pass_rate == manifest.min_pass_rate->0,
        manifest.min_pass_rate is None ==> r.min_pass_rate.bits == 0x3fe9_9999_9999_999a,
        manifest.trials is Some ==> r.trials == manifest.trials->0,
        manifest.sampling_rate is Some ==> r.sampling_rate == manifest.sampling_rate->0,
        manifest.sampling_rate is None ==> r.sampling_rate.bits == 0x3ff0_0000_0000_0000,
        r.continuous_success_required <==> manifest.continuous_success_required == Some(true),
        manifest.agent_type is None ==> r.agent_type is None,
{
}

/// The category of a suite is the one that its section names, and a capability
/// where there is none.
pub proof fn law_a_suite_has_the_category_of_its_section(
    manifest: YamlManifest,
    asked: &str,
    base: Option<String>,
    tasks: Vec<EvalTask>,
    designs: Vec<Json>,
    r: EvalSuite,
    label: &str,
    c: SuiteCategory,
)
    requires
        call_ensures(load_suite, (manifest, asked, base, tasks, designs), r),
        call_ensures(parse_category, (label,), c),
    ensures
        !manifest.categories@.dom().contains(asked@) ==> r.category == SuiteCategory::Capability,
        manifest.categories@.dom().contains(asked@) && manifest.categories@[asked@].category is Some
            && manifest.categories@[asked@].category->0@ == label@ ==> r.category == c,
        manifest.categories@.dom().contains(asked@) && manifest.categories@[asked@].category is None
            ==> r.category == SuiteCategory::Capability,
{
    reveal_strlit("capability");
    reveal_strlit("regression");
    reveal_strlit("adversarial");
    reveal_strlit("multi_turn");
    assert("capability"@.len() == 10 && "capability"@[0] == 'c');
    assert("regression"@.len() == 10 && "regression"@[0] == 'r');
    assert("adversarial"@.len() == 11);
    assert("multi_turn"@.len() == 10 && "multi_turn"@[0] == 'm');
}

/// The same file with the same filter is loaded once, as its first entry says; no
/// other is left out, and none is made up.
pub proof fn law_each_file_is_loaded_once(
    entries: Vec<ResolvedEntry>,
    r: Vec<ResolvedEntry>,
    i: int,
    j: int,
)
    requires
        call_ensures(sort_entries, (entries,), r),
    ensures
        0 <= i < entries@.len() ==> exists|k: int|
            0 <= k < r@.len() && components((#[trigger] r@[k]).task_path@) == components(
                entries@[i].task_path@,
            ) && opt_text(r@[k].task_filter) == opt_text(entries@[i].task_filter),
        0 <= i < r@.len() ==> entries@.contains(r@[i]),
        0 <= i < j < r@.len() ==> components(r@[i].task_path@) != components(r@[j].task_path@)
            || opt_text(r@[i].task_filter) != opt_text(r@[j].task_filter),
{
    assert(sorted_once(entries@, r@));
    if 0 <= i < entries@.len() {
        let key = entry_key(entries@[i]);
        assert(crate::eval::suites::has_key(r@, key));
        let k = choose|k: int| #[trigger] crate::eval::suites::has_key_at(r@, k, key);
        assert(crate::eval::suites::has_key_at(r@, k, key));
        crate::eval::suites::law_entry_key(r@[k], entries@[i]);
        assert(components(r@[k].task_path@) == components(entries@[i].task_path@));
    }
    if 0 <= i < r@.len() {
        assert(crate::eval::suites::is_first(entries@, r@[i]));
        let k = choose|k: int| #[trigger] crate::eval::suites::first_at(entries@, k, r@[i]);
        assert(entries@[k] == r@[i]);
    }
    if 0 <= i < j < r@.len() {
        crate::eval::suites::law_entry_key(r@[i], r@[j]);
        let a = entry_key(r@[i]);
        let b = entry_key(r@[j]);
        assert(crate::eval::suites::list_less(a, b));
        if a == b {
            lemma_not_less(a, 0);
        }
    }
}

proof fn lemma_not_less(a: Seq<Seq<char>>, i: int)
    requires
        0 <= i <= a.len(),
    ensures
        !crate::eval::suites::list_less_from(a, a, i),
    decreases a.len() - i,
{
    if i < a.len() {
        lemma_not_less(a, i + 1);
    }
}

/// The tasks of a file that its filter lets pass are gathered, and no others.
pub proof fn law_filtered_tasks_are_gathered(
    tasks: Vec<EvalTask>,
    filter: &Option<String>,
    r: Vec<EvalTask>,
    t: EvalTask,
)
    requires
        call_ensures(matching_tasks, (tasks, filter), r),
    ensures
        *filter is None ==> (r@.contains(t) <==> tasks@.contains(t)),
        *filter is Some ==> (r@.contains(t) <==> tasks@.contains(t) && occurs(t.id@, filter->0@)),
{
    let p = |x: EvalTask| crate::eval::loader::passes(opt_text(*filter), x.id@);
    lemma_filter_has(tasks@, p, t);
}

/// What is gathered are the tasks of all files, each through the filter of its
/// own entry.
pub proof fn law_every_file_gives_its_tasks(
    entries: Vec<ResolvedEntry>,
    files: Vec<LoadedTaskFile>,
    r: (Vec<EvalTask>, Vec<Json>),
    i: int,
    t: EvalTask,
)
    requires
        call_ensures(gather_tasks, (entries, files), r),
        entries@.len() == files@.len(),
        0 <= i < files@.len(),
        files@[i].tasks@.contains(t),
        entries@[i].task_filter is None || occurs(t.id@, entries@[i].task_filter->0@),
    ensures
        r.0@.contains(t),
{
    lemma_gathered(entries@, files@, entries@.len() as int, i, t);
}

proof fn lemma_gathered(
    entries: Seq<ResolvedEntry>,
    files: Seq<LoadedTaskFile>,
    n: int,
    i: int,
    t: EvalTask,
)
    requires
        entries.len() == files.len(),
        0 <= i < n <= files.len(),
        files[i].tasks@.contains(t),
        entries[i].task_filter is None || occurs(t.id@, entries[i].task_filter->0@),
    ensures
        gathered(entries, files, n).contains(t),
    decreases n,
{
    let less = gathered(entries, files, n - 1);
    let p = |x: EvalTask| crate::eval::loader::passes(opt_text(entries[n - 1].task_filter), x.id@);
    let own = files[n - 1].tasks@.filter(p);
    let now = gathered(entries, files, n);
    assert(now == less + own);
    if i == n - 1 {
        lemma_filter_has(files[i].tasks@, p, t);
        let k = choose|k: int| 0 <= k < own.len() && own[k] == t;
        assert(now[less.len() + k] == t);
    } else {
        lemma_gathered(entries, files, n - 1, i, t);
        let k = choose|k: int| 0 <= k < less.len() && less[k] == t;
        assert(now[k] == t);
    }
}

/// A suite is shown by its own name, and by that of its file only where it has
/// none.
pub proof fn law_a_suite_is_shown_by_its_name(name: Option<String>, base: &str, r: String)
    requires
        call_ensures(display_name, (name, base), r),
    ensures
        name is Some ==> r@ == name->0@,
        name is None ==> r@ == base@,
{
}

/// A case is as the judge was expected to judge it just where the judge passes
/// what was to pass and fails what was to fail; a judge that breaks down is never
/// right.
pub proof fn law_a_judge_is_right_as_expected(
    case: &CalibrationCase,
    judgement: Judgement,
    r: CalibrationResult,
)
    requires
        call_ensures(evaluate_case, (case, judgement), r),
    ensures
        r.case_id@ == case.id@,
        r.expected_verdict@ == case.expected.verdict@,
        judgement is Failed ==> !r.verdict_match && r.actual_verdict@ == "error"@,
        judgement matches Judgement::Given {
            passed,
            dimension_accuracy,
            overall_score_deviation,
            details,
        } ==> {
            &&& case.expected.verdict@ == "Pass"@ ==> (r.verdict_match <==> passed)
            &&& case.expected.verdict@ == "Fail"@ ==> (r.verdict_match <==> !passed)
            &&& r.actual_verdict@ == (if passed {
                "Pass"@
            } else {
                "Fail"@
            })
            &&& r.dimension_accuracy == dimension_accuracy
            &&& r.overall_score_deviation == overall_score_deviation
            &&& r.details@ == details@
        },
{
    reveal_strlit("Pass");
    reveal_strlit("Fail");
    assert("Pass"@[0] == 'P' && "Fail"@[0] == 'F');
}

/// The cases are loaded as they are written, in their order.
pub proof fn law_cases_are_loaded_as_written(
    cases: Vec<CalibrationCaseYaml>,
    r: Vec<CalibrationCase>,
    i: int,
)
    requires
        call_ensures(load_calibration_cases, (cases,), r),
        0 <= i < cases@.len(),
    ensures
        r@.len() == cases@.len(),
        r@[i].id@ == cases@[i].id@,
        r@[i].input@ == cases@[i].input@,
        r@[i].trajectory@ == cases@[i].trajectory@,
        r@[i].expected == cases@[i].expected,
        r@[i].acceptable_deviation == cases@[i].acceptable_deviation,
        r@[i].criteria is Some <==> cases@[i].criteria is Some,
{
    assert(crate::eval::calibration::case_converted(cases@[i], r@[i]));
}

/// A report counts every case, and as matching those that match: one more with
/// each of them.
pub proof fn law_a_report_counts_the_matches(
    per_case: Vec<CalibrationResult>,
    averages: Averages,
    now: Timestamp,
    r: CalibrationReport,
    results: Seq<CalibrationResult>,
    one: CalibrationResult,
)
    requires
        call_ensures(calibrate, (per_case, averages, now), r),
    ensures
        r.total_cases == per_case@.len(),
        r.matching_verdicts == match_count(per_case@),
        r.timestamp == now,
        r.per_case@ == per_case@,
        per_case@.len() > 0 ==> r.verdict_accuracy == averages.verdict_accuracy
            && r.avg_dimension_accuracy == averages.dimension_accuracy && r.avg_score_deviation
            == averages.score_deviation,
        match_count(Seq::empty()) == 0,
        match_count(results.push(one)) == match_count(results) + (if one.verdict_match {
            1int
        } else {
            0
        }),
{
    assert(results.push(one).drop_last() =~= results);
}

/// A drift is told where the last report of at least two fell off, of the
/// verdicts first; the reports compared are the last two.
pub proof fn law_a_drift_is_told_when_a_figure_drops(
    reports: usize,
    verdicts: &Change,
    dimensions: &Change,
    r: Option<String>,
    pair: Option<(usize, usize)>,
)
    requires
        call_ensures(detect_drift, (reports, verdicts, dimensions), r),
        call_ensures(compared_reports, (reports,), pair),
    ensures
        r is Some <==> reports >= 2 && (verdicts.dropped || dimensions.dropped),
        r is Some && verdicts.dropped ==> r->0@ == "Verdict"@ + " accuracy dropped "@
            + verdicts.by@ + "% (was "@ + verdicts.was@ + "%, now "@ + verdicts.is_now@ + "%)"@,
        r is Some && !verdicts.dropped ==> r->0@ == "Dimension"@ + " accuracy dropped "@
            + dimensions.by@ + "% (was "@ + dimensions.was@ + "%, now "@ + dimensions.is_now@
            + "%)"@,
        pair is Some <==> reports >= 2,
        pair matches Some((a, b)) ==> b == reports - 1 && a == b - 1,
{
}

/// Every line of the history that is not blank is read, without the carriage
/// return at its end, and no blank one.
pub proof fn law_lines_that_are_not_blank_are_read(content: &str, r: Vec<String>, i: int)
    requires
        call_ensures(history_lines, (content,), r),
        0 <= i < pieces(content@, '\n').len() - 1,
    ensures
        ({
            let piece = pieces(content@, '\n')[i];
            let line = if piece.len() > 0 && piece.last() == '\r' {
                piece.drop_last()
            } else {
                piece
            };
            trimmed(line).len() > 0 ==> texts(r@).contains(line)
        }),
        forall|k: int| 0 <= k < r@.len() ==> trimmed((#[trigger] r@[k])@).len() > 0,
{
    let ps = pieces(content@, '\n');
    lemma_lines(ps, ps.len() as int, i);
    assert forall|k: int| 0 <= k < r@.len() implies trimmed((#[trigger] r@[k])@).len() > 0 by {
        assert(texts(r@)[k] == r@[k]@);
    }
}

proof fn lemma_lines(ps: Seq<Seq<char>>, n: int, i: int)
    requires
        0 <= n <= ps.len(),
    ensures
        forall|k: int|
            0 <= k < lines_to(ps, n).len() ==> trimmed(#[trigger] lines_to(ps, n)[k]).len() > 0,
        0 <= i < n && i < ps.len() - 1 && trimmed(crate::eval::calibration::line_of(ps[i])).len()
            > 0 ==> lines_to(ps, n).contains(crate::eval::calibration::line_of(ps[i])),
    decreases n,
{
    if n > 0 {
        lemma_lines(ps, n - 1, i);
        let less = lines_to(ps, n - 1);
        let now = lines_to(ps, n);
        let line = crate::eval::calibration::line_of(ps[i]);
        if 0 <= i < n && i < ps.len() - 1 && trimmed(line).len() > 0 {
            if i == n - 1 {
                assert(now.last() == line);
            } else {
                let k = choose|k: int| 0 <= k < less.len() && less[k] == line;
                assert(now[k] == line);
            }
        }
    }
}

/// Every design that a file holds is gathered, in the order of the files.
pub proof fn law_every_design_is_gathered(
    entries: Vec<ResolvedEntry>,
    files: Vec<LoadedTaskFile>,
    r: (Vec<EvalTask>, Vec<Json>),
    i: int,
)
    requires
        call_ensures(gather_tasks, (entries, files), r),
        entries@.len() == files@.len(),
        0 <= i < files@.len(),
        files@[i].skill_design is Some,
    ensures
        r.1@.contains(files@[i].skill_design->0),
        r.1@.len() <= files@.len(),
{
    lemma_designs(files@, files@.len() as int, i);
}

proof fn lemma_designs(files: Seq<LoadedTaskFile>, n: int, i: int)
    requires
        0 <= n <= files.len(),
    ensures
        gathered_designs(files, n).len() <= n,
        0 <= i < n && files[i].skill_design is Some ==> gathered_designs(files, n).contains(
            files[i].skill_design->0,
        ),
    decreases n,
{
    if n > 0 {
        lemma_designs(files, n - 1, i);
        let now = gathered_designs(files, n);
        let less = gathered_designs(files, n - 1);
        if 0 <= i < n && files[i].skill_design is Some {
            let d = files[i].skill_design->0;
            if i == n - 1 {
                assert(now.last() == d);
            } else {
                let k = choose|k: int| 0 <= k < less.len() && less[k] == d;
                assert(now[k] == d);
            }
        }
    }
}

} // verus!

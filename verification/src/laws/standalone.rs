//! Laws of the runs of an evaluation suite.
use vstd::prelude::*;

use crate::agent::AgentConfig;
use crate::error::SyscityError;
use crate::eval::dataset::{EvalSuite, EvalTask};
use crate::eval::recycle::BadcaseGovernance;
use crate::eval::standalone::{
    append_eval_ledger, completion_sum, create_eval_tool_registry, end_suite, env_asked,
    env_questions, eval_agent_config, eval_subagent_config, executor_label, failed_cell,
    governance_of, has_criteria, is_wanted, judge_failed, judge_label, judge_plan, keep_only,
    known_count, ledger_addition, ledger_head, only_ids, only_report, pick_tasks, prompt_sum,
    provider_failed, resolve_run, reviews, row, run_suite, sample_tasks, samples, search_env_keys,
    search_variables, skill_details, suite_manifest_path, suite_not_found, suite_result,
    summary_lines, task_trials, JudgePlan, LedgerEntry, ProviderEnvironment, ProviderSelection,
    ResolvedProvider, RunEnd, RunFigures, RunPlan, SuiteRunOptions, SuiteTotals, TaskOutcome,
};
use crate::eval::types::SkillResults;
use crate::gateway::agent_spawn::BuiltinTool;
use crate::gateway::config::GatewayConfig;
use crate::gateway::config::optimizer::BadcaseGovernanceConfig;
use crate::gateway::events::TokenUsage;
use crate::laws::text::{law_a_text_occurs_where_it_stands, law_what_is_joined_holds_its_parts};
use crate::scalar::Double;
use crate::text::{decimal, joined, lemma_filter_has, occurs, opt_text, text_less, texts, trimmed};

verus! {

/// Whatever is selected for a run is what it uses, whatever the configuration and
/// the environment say: its provider, its model, its key and its address.
pub proof fn law_what_is_selected_is_used(
    selection: &ProviderSelection,
    config: &Option<GatewayConfig>,
    configured_key: Option<String>,
    env: &ProviderEnvironment,
    r: ResolvedProvider,
)
    requires
        call_ensures(resolve_run, (selection, config, configured_key, env), r),
    ensures
        selection.provider is Some ==> r.provider_type@ == selection.provider->0@,
        selection.model is Some ==> r.model is Some && r.model->0@ == selection.model->0@,
        selection.api_key is Some ==> r.api_key is Some && r.api_key->0@ == selection.api_key->0@,
        selection.base_url is Some ==> r.base_url is Some && r.base_url->0@
            == selection.base_url->0@,
{
}

/// Only what is not selected comes from the configuration, and only what that
/// does not say either from the environment; what nothing says is left open, but
/// for the provider, which has a default.
pub proof fn law_what_is_not_selected_is_configured(
    selection: &ProviderSelection,
    config: &Option<GatewayConfig>,
    configured_key: Option<String>,
    env: &ProviderEnvironment,
    r: ResolvedProvider,
)
    requires
        call_ensures(resolve_run, (selection, config, configured_key, env), r),
    ensures
        selection.provider is None && *config is Some ==> r.provider_type@
            == config->0.model_provider@,
        selection.provider is None && *config is None ==> r.provider_type@ == "anthropic"@,
        selection.model is None && *config is Some ==> r.model is Some && r.model->0@
            == config->0.model@,
        selection.model is None && *config is None ==> r.model is None,
        selection.api_key is None && configured_key is Some && configured_key->0@.len() > 0
            ==> r.api_key is Some && r.api_key->0@ == configured_key->0@,
        selection.api_key is None && (configured_key is None || configured_key->0@.len() == 0)
            && env.anthropic_key is Some ==> r.api_key is Some && r.api_key->0@
            == env.anthropic_key->0@,
        selection.api_key is None && (configured_key is None || configured_key->0@.len() == 0)
            && env.anthropic_key is None ==> opt_text(r.api_key) == opt_text(env.openai_key),
        selection.base_url is None && *config is Some && config->0.providers@.dom().contains(
            r.provider_type@,
        ) && config->0.providers@[r.provider_type@].base_url is Some ==> opt_text(r.base_url)
            == opt_text(config->0.providers@[r.provider_type@].base_url),
        selection.base_url is None && (*config is None || !config->0.providers@.dom().contains(
            r.provider_type@,
        ) || config->0.providers@[r.provider_type@].base_url is None) ==> opt_text(r.base_url)
            == opt_text(env.base_url),
{
}

/// A judge for whom only a model may be selected works with the provider of the
/// run; one with anything else of its own is a provider apart, which uses what is
/// selected for it. There is none where nothing is judged.
pub proof fn law_the_judge_is_the_one_selected(
    judge: &ProviderSelection,
    judged: bool,
    run: &ResolvedProvider,
    env: &ProviderEnvironment,
    r: JudgePlan,
)
    requires
        call_ensures(judge_plan, (judge, judged, run, env), r),
    ensures
        r is Absent <==> !judged,
        r is Separate <==> judged && (judge.provider is Some || judge.api_key is Some
            || judge.base_url is Some),
        r matches JudgePlan::Shared { model } ==> opt_text(model) == (if judge.model is Some {
            opt_text(judge.model)
        } else {
            opt_text(run.model)
        }),
        r matches JudgePlan::Separate(p) ==> {
            &&& judge.provider is Some ==> p.provider_type@ == judge.provider->0@
            &&& judge.provider is None ==> p.provider_type@ == run.provider_type@
            &&& opt_text(p.model) == opt_text(judge.model)
            &&& judge.api_key is Some ==> opt_text(p.api_key) == opt_text(judge.api_key)
            &&& judge.base_url is Some ==> opt_text(p.base_url) == opt_text(judge.base_url)
        },
{
}

/// The key and the address of a run go to a judge of the same provider only: one
/// of another provider gets its key from the environment, and no address that was
/// not selected for it.
pub proof fn law_a_key_stays_with_its_provider(
    judge: &ProviderSelection,
    run: &ResolvedProvider,
    env: &ProviderEnvironment,
    r: JudgePlan,
)
    requires
        call_ensures(judge_plan, (judge, true, run, env), r),
        r is Separate,
    ensures
        r->Separate_0.provider_type@ != run.provider_type@ && judge.base_url is None
            ==> r->Separate_0.base_url is None,
        r->Separate_0.provider_type@ != run.provider_type@ && judge.api_key is None ==> opt_text(
            r->Separate_0.api_key,
        ) == (if env.anthropic_key is Some {
            opt_text(env.anthropic_key)
        } else {
            opt_text(env.openai_key)
        }),
        r->Separate_0.provider_type@ == run.provider_type@ && judge.api_key is None ==> opt_text(
            r->Separate_0.api_key,
        ) == opt_text(run.api_key),
        r->Separate_0.provider_type@ == run.provider_type@ && judge.base_url is None ==> opt_text(
            r->Separate_0.base_url,
        ) == opt_text(run.base_url),
{
}

/// The tasks that are kept are just those that were asked for, all of them where
/// none was; to ask for tasks of which there is none is an error.
pub proof fn law_the_tasks_asked_for_are_kept(
    tasks: Vec<EvalTask>,
    only: &Option<Vec<String>>,
    r: Result<Vec<EvalTask>, SyscityError>,
    t: EvalTask,
)
    requires
        call_ensures(keep_only, (tasks, only), r),
    ensures
        *only is None || only->0@.len() == 0 ==> r is Ok && r->Ok_0@ == tasks@,
        *only is Some && only->0@.len() > 0 && r is Ok ==> (r->Ok_0@.contains(t)
            <==> tasks@.contains(t) && asked_for(only->0@, t)) && r->Ok_0@.len() > 0,
        r is Err ==> !(tasks@.contains(t) && *only is Some && asked_for(only->0@, t)),
{
    let ids = only_ids(*only);
    let p = |t: EvalTask| is_wanted(ids, t);
    lemma_filter_has(tasks@, p, t);
    if *only is Some {
        assert(ids == texts(only->0@));
        assert(ids.len() == only->0@.len());
        if asked_for(only->0@, t) {
            let i = choose|i: int| 0 <= i < only->0@.len() && (#[trigger] only->0@[i])@ == t.id@;
            assert(ids[i] == t.id@);
        }
        if ids.contains(t.id@) {
            let i = choose|i: int| 0 <= i < ids.len() && ids[i] == t.id@;
            assert(only->0@[i]@ == t.id@);
        }
        if tasks@.contains(t) && asked_for(only->0@, t) {
            assert(tasks@.filter(p).contains(t));
            assert(tasks@.filter(p).len() > 0);
        }
    }
}

/// Whether a task is asked for by its id.
pub open spec fn asked_for(ids: Seq<String>, t: EvalTask) -> bool {
    exists|i: int| 0 <= i < ids.len() && (#[trigger] ids[i])@ == t.id@
}

/// The number of trials is the task's own where it has one, else the run's, else
/// the suite's.
pub proof fn law_the_nearest_number_of_trials_counts(
    task: Option<usize>,
    run: Option<usize>,
    suite: usize,
    r: usize,
)
    requires
        call_ensures(task_trials, (task, run, suite), r),
    ensures
        task is Some ==> r == task->0,
        task is None && run is Some ==> r == run->0,
        task is None && run is None ==> r == suite,
{
}

/// A sample has the size that was asked for, but at least one task where there is
/// any and no more than there are; it repeats no place, brings in no other task
/// and comes in the order of the ids.
pub proof fn law_a_sample_is_a_part_of_the_tasks(
    tasks: Vec<EvalTask>,
    asked: usize,
    r: Vec<EvalTask>,
    i: int,
    j: int,
)
    requires
        call_ensures(sample_tasks, (tasks, asked), r),
    ensures
        1 <= asked <= tasks@.len() ==> r@.len() == asked,
        asked > tasks@.len() ==> r@.len() == tasks@.len(),
        asked == 0 && tasks@.len() > 0 ==> r@.len() == 1,
        0 <= i < r@.len() ==> tasks@.contains(r@[i]),
        0 <= i < j < r@.len() ==> !text_less(r@[j].id@, r@[i].id@),
{
    let picked = choose|picked: Seq<int>|
        #[trigger] crate::eval::standalone::picked_by(tasks@, r@, picked);
    if 0 <= i < r@.len() {
        assert(r@[i] == tasks@[picked[i]]);
    }
}

/// Only a rate below one is sampled, and only one above zero reviewed; what is no
/// number is neither.
pub proof fn law_rates_say_what_is_sampled(rate: Double, r: bool, review: Option<Double>, q: bool)
    requires
        call_ensures(samples, (rate,), r),
        call_ensures(reviews, (review,), q),
    ensures
        rate.bits == 0x3ff0_0000_0000_0000 ==> !r,
        rate.bits < 0x3ff0_0000_0000_0000 ==> r,
        0x3ff0_0000_0000_0000 < rate.bits < 0x8000_0000_0000_0000 ==> !r,
        review is None ==> !q,
        review is Some && review->0.bits == 0 ==> !q,
        review is Some && 0 < review->0.bits <= 0x7ff0_0000_0000_0000 ==> q,
        review is Some && review->0.bits > 0x7ff0_0000_0000_0000 ==> !q,
{
}

/// What a task brings is added: its trials, those that passed, its tokens. A task
/// that did not pass every trial, or could not run, is listed as failed; one that
/// could not run also fails the run for good.
pub proof fn law_outcomes_add_up(
    t: SuiteTotals,
    task_id: &str,
    outcome: &TaskOutcome,
    r: SuiteTotals,
)
    requires
        call_ensures(SuiteTotals::add_outcome, (t, task_id, outcome), r),
    ensures
        *outcome matches TaskOutcome::Ran { total_trials, passed_trials, all_passed, usage } ==> {
            &&& r.total_trials - t.total_trials == total_trials
            &&& r.total_passed - t.total_passed == passed_trials
            &&& r.prompt_tokens - t.prompt_tokens == prompt_sum(usage@)
            &&& r.completion_tokens - t.completion_tokens == completion_sum(usage@)
            &&& r.trials_with_usage - t.trials_with_usage == known_count(usage@)
            &&& r.all_ran == t.all_ran
            &&& texts(r.failed_tasks@).contains(task_id@) <==> !all_passed || texts(
                t.failed_tasks@,
            ).contains(task_id@)
        },
        *outcome is Failed ==> !r.all_ran && r.total_trials == t.total_trials && r.total_passed
            == t.total_passed && texts(r.failed_tasks@).contains(task_id@),
        !t.all_ran ==> !r.all_ran,
        forall|i: int|
            0 <= i < t.failed_tasks@.len() ==> r.failed_tasks@.len() > i && (
            #[trigger] t.failed_tasks@[i])@ == r.failed_tasks@[i]@,
{
    let a = texts(t.failed_tasks@);
    let b = texts(r.failed_tasks@);
    if b == a.push(task_id@) {
        assert(b[a.len() as int] == task_id@);
    }
    assert forall|i: int| 0 <= i < t.failed_tasks@.len() implies r.failed_tasks@.len() > i && (
    #[trigger] t.failed_tasks@[i])@ == r.failed_tasks@[i]@ by {
        assert(a[i] == t.failed_tasks@[i]@);
        assert(b.len() >= a.len());
        assert(b[i] == a[i]);
        assert(b[i] == r.failed_tasks@[i]@);
    }
}

/// Each trial whose tokens are known counts once, with its own tokens of each
/// kind; one whose tokens are not known counts for nothing.
pub proof fn law_known_tokens_count(usage: Seq<Option<TokenUsage>>, one: Option<TokenUsage>)
    ensures
        one matches Some(u) ==> prompt_sum(usage.push(one)) == prompt_sum(usage) + u.prompt_tokens
            && completion_sum(usage.push(one)) == completion_sum(usage) + u.completion_tokens
            && known_count(usage.push(one)) == known_count(usage) + 1,
        one is None ==> prompt_sum(usage.push(one)) == prompt_sum(usage) && completion_sum(
            usage.push(one),
        ) == completion_sum(usage) && known_count(usage.push(one)) == known_count(usage),
        prompt_sum(Seq::empty()) == 0,
        completion_sum(Seq::empty()) == 0,
        known_count(Seq::empty()) == 0,
{
    assert(usage.push(one).drop_last() =~= usage);
}

/// A run passes only if every task could run and the rate is reached, and is an
/// error otherwise.
pub proof fn law_a_run_passes_only_in_full(
    t: &SuiteTotals,
    rate_reached: bool,
    passed: bool,
    r: Result<(), SyscityError>,
)
    requires
        call_ensures(SuiteTotals::gate_passed, (t, rate_reached), passed),
        call_ensures(suite_result, (passed,), r),
    ensures
        r is Ok <==> t.all_ran && rate_reached,
{
}

/// A run keeps to its suite and to what was asked: its name, its provider as
/// selected, its trials and its sampling rate as overridden, its pass rate as the
/// suite demands it.
pub proof fn law_a_run_follows_its_options(
    suite: EvalSuite,
    opts: &SuiteRunOptions,
    selection: &ProviderSelection,
    config: &Option<GatewayConfig>,
    configured_key: Option<String>,
    env: &ProviderEnvironment,
    r: Result<RunPlan, SyscityError>,
)
    requires
        call_ensures(run_suite, (suite, opts, selection, config, configured_key, env), r),
    ensures
        opts.only_tasks is None ==> r is Ok && r->Ok_0.tasks@ == suite.tasks@ && r->Ok_0.only_count
            == 0,
        r matches Ok(plan) ==> {
            &&& plan.suite_name@ == suite.name@
            &&& plan.min_pass_rate == suite.min_pass_rate
            &&& selection.provider is Some ==> plan.provider.provider_type@
                == selection.provider->0@
            &&& selection.model is Some ==> opt_text(plan.provider.model) == Some(
                selection.model->0@,
            )
            &&& selection.api_key is Some ==> opt_text(plan.provider.api_key) == Some(
                selection.api_key->0@,
            )
            &&& selection.base_url is Some ==> opt_text(plan.provider.base_url) == Some(
                selection.base_url->0@,
            )
            &&& opts.trials_override is Some ==> plan.trials == opts.trials_override->0
            &&& opts.trials_override is None ==> plan.trials == suite.trials
            &&& opts.sampling_rate_override is Some ==> plan.sampling_rate
                == opts.sampling_rate_override->0
            &&& opts.sampling_rate_override is None ==> plan.sampling_rate == suite.sampling_rate
            &&& plan.early_stop.continuous_success_required == suite.continuous_success_required
            &&& plan.analyzes_failures ==> opts.collect_badcases && !(plan.judge is Absent)
            &&& opts.collect_badcases && !(plan.judge is Absent) ==> plan.analyzes_failures
            &&& plan.judge is Absent <==> forall|i: int|
                0 <= i < plan.tasks@.len() ==> (#[trigger] plan.tasks@[i]).criteria is None
            &&& plan.only_count == (if opts.only_tasks is Some {
                opts.only_tasks->0@.len()
            } else {
                0
            })
        },
{
}

/// What is written down of a run is what it was and what it added up to; a run
/// that did not succeed ends in an error, and only such a run.
pub proof fn law_a_run_is_written_down_as_it_ended(
    plan: &RunPlan,
    totals: SuiteTotals,
    figures: RunFigures,
    r: RunEnd,
)
    requires
        call_ensures(end_suite, (plan, totals, figures), r),
    ensures
        r.row.gate_passed <==> totals.all_ran && figures.rate_reached,
        r.result is Ok <==> r.row.gate_passed,
        r.row.suite@ == plan.suite_name@,
        r.row.executor@ == plan.executor_label@,
        r.row.judge@ == plan.judge_label@,
        r.row.passed == totals.total_passed,
        r.row.total == totals.total_trials,
        r.row.rate@ == figures.rate@,
        r.row.date@ == figures.date@,
        r.row.commit@ == figures.commit@,
        texts(r.row.failed_tasks@) == texts(totals.failed_tasks@),
        plan.only_count == 0 && !plan.samples ==> r.row.mode@ == "full"@,
        plan.only_count == 0 && plan.samples ==> r.row.mode@ == "sampled:"@ + figures.sampling@,
        plan.only_count > 0 ==> r.row.mode@ == "only:"@ + decimal(plan.only_count as nat),
        r.summary@.len() >= 6,
        r.summary@[0]@ == "═══ Suite Summary: "@ + plan.suite_name@ + " ═══"@,
        r.summary@[1]@ == "  Overall pass rate: "@ + figures.rate@,
        r.summary@[2]@ == "  Total trials:      "@ + decimal(totals.total_trials as nat),
        r.summary@[3]@ == "  Total passed:      "@ + decimal(totals.total_passed as nat),
        r.summary@[4]@ == "  Min required:      "@ + figures.min_pass@,
        r.summary@[5]@ == "  Result:            "@ + (if totals.all_ran && figures.rate_reached {
            "PASS"@
        } else {
            "FAIL"@
        }),
        r.summary@.len() == 6 <==> totals.trials_with_usage == 0,
{
    let lines = texts(r.summary@);
    assert(lines.len() == r.summary@.len());
    assert(lines[0] == r.summary@[0]@);
    assert(lines[1] == r.summary@[1]@);
    assert(lines[2] == r.summary@[2]@);
    assert(lines[3] == r.summary@[3]@);
    assert(lines[4] == r.summary@[4]@);
    assert(lines[5] == r.summary@[5]@);
}

/// The cells of a row in the order of the ledger's columns, each with what the
/// column is headed by.
pub proof fn law_a_row_fills_the_columns(e: &LedgerEntry, r: String)
    requires
        call_ensures(append_eval_ledger, (e,), r),
        e.failed_tasks@.len() == 0,
        trimmed(e.commit@).len() > 0,
    ensures
        r@ == "| "@ + e.date@ + " | "@ + trimmed(e.commit@) + " | "@ + e.suite@ + " | "@
            + e.executor@ + " | "@ + e.judge@ + " | "@ + e.mode@ + " | "@ + decimal(
            e.passed as nat,
        ) + "/"@ + decimal(e.total as nat) + " | "@ + e.rate@ + " | "@ + (if e.gate_passed {
            "PASS"@
        } else {
            "FAIL"@
        }) + " | "@ + "-"@ + " |\n"@,
{
}

/// The tasks that failed are listed in their cell, all of them unless the list is
/// too long, and then its beginning.
pub proof fn law_failed_tasks_are_listed(failed: Seq<Seq<char>>, i: int)
    ensures
        failed.len() == 0 ==> failed_cell(failed) == "-"@,
        0 <= i < failed.len() && joined(failed, ", "@).len() <= 160 ==> occurs(
            failed_cell(failed),
            failed[i],
        ),
        failed.len() > 0 && joined(failed, ", "@).len() > 160 ==> failed_cell(failed).len() == 160
            && failed_cell(failed).take(159) == joined(failed, ", "@).take(159),
{
    let all = joined(failed, ", "@);
    if 0 <= i < failed.len() {
        law_what_is_joined_holds_its_parts(failed, ", "@, i);
    }
    if failed.len() > 0 && all.len() > 160 {
        reveal_strlit("…");
        assert(failed_cell(failed).take(159) =~= all.take(159));
    }
}

/// A new ledger begins with its head; a row is added in either case.
pub proof fn law_only_a_new_ledger_gets_a_head(exists: bool, e: &LedgerEntry, r: String)
    requires
        call_ensures(ledger_addition, (exists, e), r),
    ensures
        exists ==> r@ == row(*e),
        !exists ==> r@ == ledger_head() + row(*e),
{
}

/// How a run is labelled: by the provider and the model that ran, and by the
/// judge that was selected.
pub proof fn law_labels_name_who_ran_and_who_judged(
    run: &ResolvedProvider,
    judge: &ProviderSelection,
    judged: bool,
    r: String,
    q: String,
)
    requires
        call_ensures(executor_label, (run,), r),
        call_ensures(judge_label, (judge, judged), q),
    ensures
        run.model is Some ==> r@ == run.provider_type@ + "/"@ + run.model->0@,
        run.model is None ==> r@ == run.provider_type@ + "/"@ + "default"@,
        !judged ==> q@ == "none"@,
        judged && judge.model is None ==> q@ == "self"@,
        judged && judge.model is Some && judge.provider is None ==> q@ == judge.model->0@,
        judged && judge.model is Some && judge.provider is Some ==> q@ == judge.provider->0@
            + "/"@ + judge.model->0@,
{
}

/// There is something to judge just where a task has criteria.
pub proof fn law_criteria_are_judged(tasks: &Vec<EvalTask>, r: bool)
    requires
        call_ensures(has_criteria, (tasks,), r),
    ensures
        r <==> !(forall|i: int| 0 <= i < tasks@.len() ==> (#[trigger] tasks@[i]).criteria is None),
{
}

/// The agent of a run is the configured one, with more room for its answers and
/// with guidelines behind its own prompt; a sub-agent has its own id and no other
/// prompt.
pub proof fn law_the_agent_of_a_run_keeps_its_configuration(
    base: AgentConfig,
    subagent_id: &str,
    r: AgentConfig,
    q: AgentConfig,
)
    requires
        call_ensures(eval_agent_config, (base,), r),
        call_ensures(eval_subagent_config, (base, subagent_id), q),
    ensures
        base.system_prompt@.is_prefix_of(r.system_prompt@),
        r.max_tokens == 8192,
        q.max_tokens == 8192,
        r.agent_id == base.agent_id,
        r.temperature == base.temperature,
        r.max_turns == base.max_turns,
        r.max_concurrent_tools == base.max_concurrent_tools,
        r.workspace_only == base.workspace_only,
        r.max_context_tokens == base.max_context_tokens,
        q.agent_id is Some,
        q.agent_id->0@ == subagent_id@,
        q.system_prompt == base.system_prompt,
        q.temperature == base.temperature,
        q.workspace_only == base.workspace_only,
{
    assert(r.system_prompt@.take(base.system_prompt@.len() as int) =~= base.system_prompt@);
}

/// A manifest lies under the name of its suite, and a suite that is not there is
/// told by its name and by where it was looked for.
pub proof fn law_a_missing_suite_is_named(
    suite_name: &str,
    shown_path: &str,
    r: SyscityError,
)
    requires
        call_ensures(suite_not_found, (suite_name, shown_path), r),
    ensures
        r matches SyscityError::Validation(m) && occurs(m@, suite_name@) && occurs(
            m@,
            shown_path@,
        ),
{
    let m = r->Validation_0@;
    let none = Seq::<char>::empty();
    law_a_text_occurs_where_it_stands(
        "Suite '"@,
        suite_name@,
        "' not found at "@ + shown_path@,
        m,
    );
    assert("Suite '"@ + suite_name@ + ("' not found at "@ + shown_path@) =~= m);
    law_a_text_occurs_where_it_stands(
        "Suite '"@ + suite_name@ + "' not found at "@,
        shown_path@,
        none,
        m,
    );
    assert("Suite '"@ + suite_name@ + "' not found at "@ + shown_path@ + none =~= m);
}

/// A trial without any check of a skill has no details; one with some has a line
/// for each under one heading.
pub proof fn law_every_check_of_a_skill_is_shown(
    trial_index: usize,
    results: &SkillResults,
    r: Vec<String>,
    i: int,
)
    requires
        call_ensures(skill_details, (trial_index, results), r),
    ensures
        ({
            let n = results.trigger_results@.len() + results.execution_results@.len()
                + results.quality_results@.len() + results.resilience_results@.len();
            &&& n == 0 ==> r@.len() == 0
            &&& n > 0 ==> r@.len() == n + 1
            &&& 0 <= i < results.trigger_results@.len() ==> occurs(
                r@[1 + i]@,
                results.trigger_results@[i].detail@,
            ) && (if results.trigger_results@[i].passed {
                occurs(r@[1 + i]@, "✓"@)
            } else {
                occurs(r@[1 + i]@, "✗"@)
            })
            &&& 0 <= i < results.execution_results@.len() ==> occurs(
                r@[1 + results.trigger_results@.len() + i]@,
                results.execution_results@[i].detail@,
            ) && (if results.execution_results@[i].passed {
                occurs(r@[1 + results.trigger_results@.len() + i]@, "✓"@)
            } else {
                occurs(r@[1 + results.trigger_results@.len() + i]@, "✗"@)
            })
        }),
{
    let lines = texts(r@);
    assert(lines.len() == r@.len());
    if 0 <= i < results.trigger_results@.len() {
        let c = results.trigger_results@[i];
        assert(lines[1 + i] == r@[1 + i]@);
        assert(lines[1 + i] == crate::eval::standalone::check_line("Trigger"@, c));
        lemma_check_line("Trigger"@, c);
    }
    if 0 <= i < results.execution_results@.len() {
        let c = results.execution_results@[i];
        let k = 1 + results.trigger_results@.len() + i;
        assert(lines[k] == r@[k]@);
        assert(lines[k] == crate::eval::standalone::check_line("Execution"@, c));
        lemma_check_line("Execution"@, c);
    }
}

proof fn lemma_check_line(kind: Seq<char>, c: crate::eval::types::SkillCheck)
    ensures
        occurs(crate::eval::standalone::check_line(kind, c), c.detail@),
        occurs(
            crate::eval::standalone::check_line(kind, c),
            if c.passed {
                "✓"@
            } else {
                "✗"@
            },
        ),
{
    let m = crate::eval::standalone::mark(c.passed);
    let line = crate::eval::standalone::check_line(kind, c);
    let none = Seq::<char>::empty();
    let tail = " "@ + kind + " ["@ + c.label@ + "]: "@ + c.detail@;
    law_a_text_occurs_where_it_stands("    "@, m, tail, line);
    assert("    "@ + m + tail =~= line);
    let front = "    "@ + m + " "@ + kind + " ["@ + c.label@ + "]: "@;
    law_a_text_occurs_where_it_stands(front, c.detail@, none, line);
    assert(front + c.detail@ + none =~= line);
}

/// Each search provider has the variable that its key is looked up under: its own
/// name in capitals.
pub proof fn law_search_keys_have_their_own_variables(r: Vec<(String, String)>, i: int)
    requires
        call_ensures(search_env_keys, (), r),
        0 <= i < r@.len(),
    ensures
        r@.len() == 7,
        r@[i].1@.len() == r@[i].0@.len() + 8,
        crate::text::ascii_lower(r@[i].1@).take(r@[i].0@.len() as int) == r@[i].0@,
        r@[i].1@.skip(r@[i].0@.len() as int) == "_API_KEY"@,
{
    let pairs = crate::eval::standalone::text_pairs(r@);
    assert(pairs.len() == r@.len());
    assert(pairs[i] == (r@[i].0@, r@[i].1@));
    reveal_strlit("tavily");
    reveal_strlit("TAVILY_API_KEY");
    reveal_strlit("brave");
    reveal_strlit("BRAVE_API_KEY");
    reveal_strlit("serper");
    reveal_strlit("SERPER_API_KEY");
    reveal_strlit("exa");
    reveal_strlit("EXA_API_KEY");
    reveal_strlit("firecrawl");
    reveal_strlit("FIRECRAWL_API_KEY");
    reveal_strlit("bocha");
    reveal_strlit("BOCHA_API_KEY");
    reveal_strlit("serpapi");
    reveal_strlit("SERPAPI_API_KEY");
    reveal_strlit("_API_KEY");
    assert(crate::text::ascii_lower(r@[i].1@).take(r@[i].0@.len() as int) =~= r@[i].0@);
    assert(r@[i].1@.skip(r@[i].0@.len() as int) =~= "_API_KEY"@);
}

/// A provider that has a key in the environment is asked with that key, and with
/// nobody else's; one whose variable is blank or not set is not asked.
pub proof fn law_search_keys_of_the_environment_are_used(
    values: Seq<Option<String>>,
    asked: Seq<(String, Option<String>)>,
    i: int,
    k: int,
)
    requires
        env_asked(values, asked),
        values.len() == search_variables().len(),
    ensures
        0 <= i < values.len() && values[i] is Some && trimmed(values[i]->0@).len() > 0
            ==> exists|j: int|
            0 <= j < asked.len() && (#[trigger] asked[j]).0@ == search_variables()[i].0
                && opt_text(asked[j].1) == Some(values[i]->0@),
        0 <= k < asked.len() ==> exists|j: int|
            0 <= j < values.len() && values[j] is Some && asked[k].0@ == (
            #[trigger] search_variables()[j]).0 && opt_text(asked[k].1) == Some(values[j]->0@),
{
    let n = values.len() as int;
    let q = env_questions(values, n);
    lemma_questions(values, n);
    let a = asked.map_values(|x: (String, Option<String>)| (x.0@, opt_text(x.1)));
    let b = q.map_values(|x: (Seq<char>, Seq<char>)| (x.0, Some(x.1)));
    assert(a == b);
    assert(a.len() == asked.len() && b.len() == q.len());
    if 0 <= i < values.len() && values[i] is Some && trimmed(values[i]->0@).len() > 0 {
        let e = (search_variables()[i].0, values[i]->0@);
        assert(q.contains(e));
        let j = choose|j: int| 0 <= j < q.len() && q[j] == e;
        assert(b[j] == (e.0, Some(e.1)));
        assert(a[j] == (asked[j].0@, opt_text(asked[j].1)));
    }
    if 0 <= k < asked.len() {
        assert(a[k] == (asked[k].0@, opt_text(asked[k].1)));
        assert(b[k] == (q[k].0, Some(q[k].1)));
        let j = choose|j: int|
            0 <= j < n && values[j] is Some && q[k].0 == (#[trigger] search_variables()[j]).0
                && q[k].1 == values[j]->0@;
        assert(asked[k].0@ == search_variables()[j].0);
    }
}

proof fn lemma_questions(values: Seq<Option<String>>, n: int)
    requires
        0 <= n <= values.len(),
        values.len() == search_variables().len(),
    ensures
        forall|i: int|
            0 <= i < n && (#[trigger] values[i]) is Some && trimmed(values[i]->0@).len() > 0
                ==> env_questions(values, n).contains(
                (search_variables()[i].0, values[i]->0@),
            ),
        forall|k: int|
            0 <= k < env_questions(values, n).len() ==> exists|j: int|
                0 <= j < n && values[j] is Some && (#[trigger] env_questions(values, n)[k]).0 == (
                #[trigger] search_variables()[j]).0 && env_questions(values, n)[k].1
                    == values[j]->0@,
    decreases n,
{
    if n > 0 {
        lemma_questions(values, n - 1);
        let less = env_questions(values, n - 1);
        let now = env_questions(values, n);
        assert forall|i: int|
            0 <= i < n && (#[trigger] values[i]) is Some && trimmed(values[i]->0@).len()
                > 0 implies now.contains((search_variables()[i].0, values[i]->0@)) by {
            let e = (search_variables()[i].0, values[i]->0@);
            if i == n - 1 {
                assert(now.last() == e);
            } else {
                assert(less.contains(e));
                let k = choose|k: int| 0 <= k < less.len() && less[k] == e;
                assert(now[k] == e);
            }
        }
        assert forall|k: int| 0 <= k < now.len() implies exists|j: int|
            0 <= j < n && values[j] is Some && (#[trigger] now[k]).0 == (
            #[trigger] search_variables()[j]).0 && now[k].1 == values[j]->0@ by {
            if k < less.len() {
                assert(now[k] == less[k]);
                let j = choose|j: int|
                    0 <= j < n - 1 && values[j] is Some && less[k].0 == (
                    #[trigger] search_variables()[j]).0 && less[k].1 == values[j]->0@;
                assert(now[k].0 == search_variables()[j].0);
            } else {
                assert(now[k].0 == search_variables()[n - 1].0);
            }
        }
    }
}

/// The governance of a suite takes its weights from the configuration, where there
/// is one.
pub proof fn law_governance_takes_its_weights_from_the_configuration(
    config: &Option<BadcaseGovernanceConfig>,
    r: BadcaseGovernance,
)
    requires
        call_ensures(governance_of, (config,), r),
    ensures
        *config is Some ==> r.difficulty_weights@ == config->0.difficulty_weights@
            && r.default_weight == config->0.default_weight,
        *config is None ==> forall|k: Seq<char>| !r.difficulty_weights@.dom().contains(k),
        r.downgrade_threshold > 0,
        r.max_duplicate_inputs > 0,
        r.max_age_days > 0,
{
}

/// A provider that could not be made is told by its name and by what went wrong,
/// that of a run otherwise than that of its judge.
pub proof fn law_a_provider_that_fails_is_named(
    provider: &str,
    error: &str,
    r: SyscityError,
    q: SyscityError,
)
    requires
        call_ensures(provider_failed, (provider, error), r),
        call_ensures(judge_failed, (provider, error), q),
    ensures
        r matches SyscityError::Validation(m) && occurs(m@, provider@) && occurs(m@, error@),
        q matches SyscityError::Validation(m) && m@ == "Failed to create judge provider '"@
            + provider@ + "': "@ + error@,
{
    let m = r->Validation_0@;
    let hint = "\nSet ANTHROPIC_API_KEY or OPENAI_API_KEY env var, or provide --api-key"@;
    let front = "Failed to create provider '"@;
    let a = "': "@ + error@ + hint;
    law_a_text_occurs_where_it_stands(front, provider@, a, m);
    assert(front + provider@ + a =~= m);
    law_a_text_occurs_where_it_stands(front + provider@ + "': "@, error@, hint, m);
    assert(front + provider@ + "': "@ + error@ + hint =~= m);
}

/// What is said of the tasks that were kept adds up to all tasks that there were.
pub proof fn law_kept_and_dropped_add_up(kept: usize, before: usize, r: String)
    requires
        call_ensures(only_report, (kept, before), r),
        kept <= before,
    ensures
        exists|dropped: nat|
            kept + dropped == before && r@ == "--only: kept "@ + decimal(kept as nat)
                + " / dropped "@ + #[trigger] decimal(dropped) + " of "@ + decimal(before as nat)
                + " tasks"@,
{
    let dropped = (before - kept) as nat;
    assert(kept + dropped == before);
    assert(r@ == "--only: kept "@ + decimal(kept as nat) + " / dropped "@ + decimal(dropped)
        + " of "@ + decimal(before as nat) + " tasks"@);
}

/// The tools of a run: files, the shell, search and the net always; delegation
/// just where it is on.
pub proof fn law_a_run_delegates_only_where_it_may(with_acp: bool, r: Vec<BuiltinTool>)
    requires
        call_ensures(create_eval_tool_registry, (with_acp,), r),
    ensures
        r@.contains(BuiltinTool::AcpSpawn) <==> with_acp,
        r@.contains(BuiltinTool::AcpSession) <==> with_acp,
        r@.contains(BuiltinTool::SessionsSend) <==> with_acp,
        r@.contains(BuiltinTool::Shell),
        r@.contains(BuiltinTool::FileRead),
        r@.contains(BuiltinTool::FileWrite),
        r@.contains(BuiltinTool::FileEdit),
        r@.contains(BuiltinTool::Grep),
        r@.contains(BuiltinTool::Glob),
        r@.contains(BuiltinTool::WebSearch),
        r@.contains(BuiltinTool::WebFetch),
        r@.contains(BuiltinTool::Todo),
        r@.contains(BuiltinTool::Time),
{
    assert(r@[0] == BuiltinTool::Shell);
    assert(r@[1] == BuiltinTool::FileRead);
    assert(r@[2] == BuiltinTool::FileWrite);
    assert(r@[3] == BuiltinTool::FileEdit);
    assert(r@[4] == BuiltinTool::Grep);
    assert(r@[5] == BuiltinTool::Glob);
    assert(r@[6] == BuiltinTool::WebSearch);
    assert(r@[7] == BuiltinTool::WebFetch);
    assert(r@[8] == BuiltinTool::Todo);
    assert(r@[9] == BuiltinTool::Time);
    if with_acp {
        assert(r@[10] == BuiltinTool::AcpSpawn);
        assert(r@[11] == BuiltinTool::AcpSession);
        assert(r@[12] == BuiltinTool::SessionsSend);
    }
}

/// The tokens of a run are shown where they are known: both kinds, their sum, and
/// how many a trial took.
pub proof fn law_tokens_are_shown_with_their_sum(
    name: &str,
    rate: &str,
    min_pass: &str,
    t: &SuiteTotals,
    passed: bool,
    r: Vec<String>,
)
    requires
        call_ensures(summary_lines, (name, rate, min_pass, t, passed), r),
        t.prompt_tokens + t.completion_tokens <= u64::MAX,
        t.trials_with_usage > 0,
    ensures
        r@.len() == 8,
        r@[6]@ == "  Total tokens:      "@ + decimal(
            (t.prompt_tokens + t.completion_tokens) as nat,
        ) + " ("@ + decimal(t.prompt_tokens as nat) + " prompt + "@ + decimal(
            t.completion_tokens as nat,
        ) + " completion, "@ + decimal(t.trials_with_usage as nat) + " trials)"@,
        r@[7]@ == "  Avg tokens/trial:  "@ + decimal(
            ((t.prompt_tokens + t.completion_tokens) / (t.trials_with_usage as int)) as nat,
        ),
{
    let lines = texts(r@);
    assert(lines.len() == r@.len());
    assert(lines[6] == r@[6]@ && lines[7] == r@[7]@);
}

/// A run is reviewed at the rate that its configuration asks for, where that is
/// one at which anything is reviewed.
pub proof fn law_a_run_is_reviewed_as_configured(
    suite: EvalSuite,
    opts: &SuiteRunOptions,
    selection: &ProviderSelection,
    config: &Option<GatewayConfig>,
    configured_key: Option<String>,
    env: &ProviderEnvironment,
    r: Result<RunPlan, SyscityError>,
    reviewed: bool,
    partial: bool,
)
    requires
        call_ensures(run_suite, (suite, opts, selection, config, configured_key, env), r),
        *config is Some ==> call_ensures(
            reviews,
            (config->0.eval.human_review.sampling_rate,),
            reviewed,
        ),
        r is Ok ==> call_ensures(samples, (r->Ok_0.sampling_rate,), partial),
    ensures
        r is Ok && *config is None ==> r->Ok_0.review_rate is None,
        r is Ok && *config is Some && reviewed ==> r->Ok_0.review_rate
            == config->0.eval.human_review.sampling_rate,
        r is Ok && *config is Some && !reviewed ==> r->Ok_0.review_rate is None,
        r is Ok ==> r->Ok_0.samples == partial,
{
}

/// A run may only be asked for tasks that there are: it is an error just where
/// tasks are asked for and none of the suite is among them.
pub proof fn law_a_run_without_tasks_is_an_error(
    suite: EvalSuite,
    opts: &SuiteRunOptions,
    selection: &ProviderSelection,
    config: &Option<GatewayConfig>,
    configured_key: Option<String>,
    env: &ProviderEnvironment,
    r: Result<RunPlan, SyscityError>,
    t: EvalTask,
)
    requires
        call_ensures(run_suite, (suite, opts, selection, config, configured_key, env), r),
        opts.only_tasks is Some,
        opts.only_tasks->0@.len() > 0,
    ensures
        r is Ok ==> (r->Ok_0.tasks@.contains(t) <==> suite.tasks@.contains(t) && asked_for(
            opts.only_tasks->0@,
            t,
        )),
        suite.tasks@.contains(t) && asked_for(opts.only_tasks->0@, t) ==> r is Ok,
{
    let ids = only_ids(opts.only_tasks);
    let p = |t: EvalTask| is_wanted(ids, t);
    lemma_filter_has(suite.tasks@, p, t);
    let only = opts.only_tasks->0@;
    assert(ids == texts(only));
    assert(ids.len() == only.len());
    if asked_for(only, t) {
        let i = choose|i: int| 0 <= i < only.len() && (#[trigger] only[i])@ == t.id@;
        assert(ids[i] == t.id@);
    }
    if ids.contains(t.id@) {
        let i = choose|i: int| 0 <= i < ids.len() && ids[i] == t.id@;
        assert(only[i]@ == t.id@);
    }
    if suite.tasks@.contains(t) && asked_for(only, t) {
        assert(suite.tasks@.filter(p).contains(t));
        assert(suite.tasks@.filter(p).len() > 0);
    }
}

/// The tasks that were chosen are those that are picked, each once.
pub proof fn law_the_chosen_tasks_are_picked(
    tasks: Vec<EvalTask>,
    chosen: &Vec<usize>,
    r: Vec<EvalTask>,
    i: int,
)
    requires
        call_ensures(pick_tasks, (tasks, chosen), r),
        chosen@.no_duplicates(),
        forall|k: int| 0 <= k < chosen@.len() ==> (#[trigger] chosen@[k]) < tasks@.len(),
        0 <= i < tasks@.len(),
        tasks@.len() <= usize::MAX,
    ensures
        chosen@.contains(i as usize) ==> r@.contains(tasks@[i]),
{
    let picked = choose|picked: Seq<int>|
        {
            &&& #[trigger] crate::eval::standalone::picked_by(tasks@, r@, picked)
            &&& forall|i: int|
                0 <= i < tasks@.len() ==> (#[trigger] picked.contains(i) <==> chosen@.contains(
                    i as usize,
                ))
        };
    if chosen@.contains(i as usize) {
        assert(picked.contains(i));
        let k = choose|k: int| 0 <= k < picked.len() && picked[k] == i;
        assert(r@[k] == tasks@[picked[k]]);
    }
}

/// A manifest is looked for among the suites, under the name of its suite.
pub proof fn law_a_manifest_is_named_after_its_suite(
    evals_dir: &str,
    suite_name: &str,
    r: String,
)
    requires
        call_ensures(suite_manifest_path, (evals_dir, suite_name), r),
        evals_dir@.len() > 0,
        evals_dir@.last() != '/',
        suite_name@.len() > 0,
        suite_name@[0] != '/',
    ensures
        r@ == evals_dir@ + "/"@ + "suites"@ + "/"@ + (suite_name@ + ".yaml"@),
{
    reveal_strlit("suites");
    reveal_strlit("/");
    let mid = evals_dir@ + "/"@ + "suites"@;
    assert("suites"@[0] == 's');
    assert(crate::path::path_below(evals_dir@, "suites"@) == mid);
    assert(mid.last() == 's');
    assert((suite_name@ + ".yaml"@)[0] == suite_name@[0]);
}

} // verus!

//! Laws of what the analysis of a failure says.
use vstd::prelude::*;

use crate::eval::rca::{
    call_line, category_of, collect_evidence, conversation_id, describe_process_deviation,
    deviation_details, diagnoses_of, diagnosis, first_failure, known_from, match_rules,
    module_category, module_to_owner, phenomenon_named, phenomenon_of, problem_of,
    rca_input_from_trial, scope_of, turn_lines, CandidateModule, KnownModel, ModuleMapping,
    ProblemPhenomenon, RcaInput, RcaKnowledgeBase, RcaKnowledgeBaseEntry, RcaPipeline, RcaResult,
    TurnRecord,
};
use crate::eval::types::{Timestamp, TrialResult};
use crate::laws::text::{
    law_a_text_occurs_where_it_stands, law_what_is_joined_holds_its_parts, lemma_occurs_in_more,
    lemma_occurs_through,
};
use crate::text::{bytes_of, joined, occurs, texts};

verus! {

/// The modules that a phenomenon may come from: what is refused or promised from
/// the policy, what concerns tools from their choice, what is wrong from
/// retrieval and what follows it.
pub proof fn law_phenomena_point_to_their_modules(r: ModuleMapping)
    requires
        call_ensures(RcaPipeline::build_module_mapping, (), r),
    ensures
        r.find_from(ProblemPhenomenon::NonResponsive, 0) == Some(
            seq![CandidateModule::IntentRecognition, CandidateModule::ContextMemory],
        ),
        r.find_from(ProblemPhenomenon::OrderNotClarified, 0) == Some(
            seq![CandidateModule::SlotFilling, CandidateModule::ContextMemory],
        ),
        r.find_from(ProblemPhenomenon::FactualError, 0) == Some(
            seq![
                CandidateModule::Retrieval,
                CandidateModule::Reasoning,
                CandidateModule::ResponseGeneration,
            ],
        ),
        r.find_from(ProblemPhenomenon::OverPromise, 0) == Some(
            seq![CandidateModule::PolicyEnforcement, CandidateModule::ResponseGeneration],
        ),
        r.find_from(ProblemPhenomenon::ToolNotCalled, 0) == Some(
            seq![CandidateModule::ToolSelection, CandidateModule::IntentRecognition],
        ),
        r.find_from(ProblemPhenomenon::ToolWrongOrder, 0) == Some(
            seq![CandidateModule::ToolSelection, CandidateModule::Reasoning],
        ),
        r.find_from(ProblemPhenomenon::Hallucination, 0) == Some(
            seq![CandidateModule::Retrieval, CandidateModule::ResponseGeneration],
        ),
        r.find_from(ProblemPhenomenon::RefusalError, 0) == Some(
            seq![CandidateModule::PolicyEnforcement, CandidateModule::IntentRecognition],
        ),
{
}

/// The first candidate that failed is the one that the analysis blames: it names
/// that module, its category and its problem. Where none failed, a bare refusal
/// is laid to the policy, and anything else left to people, under the first
/// candidate.
pub proof fn law_the_first_failed_candidate_is_blamed(
    pipeline: &RcaPipeline,
    input: RcaInput,
    turns: &[TurnRecord],
    critic: Option<bool>,
    duration_ms: u64,
    now: Timestamp,
    r: RcaResult,
    i: int,
)
    requires
        call_ensures(RcaPipeline::analyze, (pipeline, input, turns, critic, duration_ms, now), r),
    ensures
        ({
            let scope = scope_of(pipeline.module_mapping, phenomenon_of(input));
            &&& 0 <= i < scope.len() && diagnosis(scope[i], input, critic) is Fail && (forall|k: int|
                0 <= k < i ==> !(diagnosis(#[trigger] scope[k], input, critic) is Fail)) ==> {
                &&& r.responsibility_module == scope[i]
                &&& r.problem_category@ == category_of(scope[i])
                &&& r.problem_enumeration@ == problem_of(scope[i])
            }
            &&& (forall|k: int|
                0 <= k < scope.len() ==> !(diagnosis(#[trigger] scope[k], input, critic) is Fail))
                ==> if input.tool_calls@.len() == 0 && bytes_of(input.response@).len() < 20 {
                r.responsibility_module is PolicyEnforcement && r.problem_enumeration@
                    == "不当拒答"@ && r.problem_category@ == "风险防控"@
            } else {
                (scope.len() > 0 ==> r.responsibility_module == scope[0])
                    && r.problem_enumeration@ == "无法明确归因"@
            }
        }),
        r.phenomenon@ == phenomenon_of(input).named(),
        r.sub_responsibility is None,
        r.entry == input.entry,
        r.completed_at == now,
        r.analysis_duration_ms == duration_ms,
{
    let scope = scope_of(pipeline.module_mapping, phenomenon_of(input));
    let d = diagnoses_of(scope, input, critic);
    assert forall|k: int| 0 <= k < scope.len() implies #[trigger] d[k] == (
        scope[k],
        diagnosis(scope[k], input, critic),
    ) by {}
    lemma_first_failure(d, 0);
    if 0 <= i < scope.len() && diagnosis(scope[i], input, critic) is Fail && (forall|k: int|
        0 <= k < i ==> !(diagnosis(#[trigger] scope[k], input, critic) is Fail)) {
        assert(d[i].1 is Fail);
        let f = first_failure(d, 0)->0;
        assert(d[f].1 is Fail);
        if f < i {
            assert(!(diagnosis(scope[f], input, critic) is Fail));
        }
        assert(f == i);
    }
    if forall|k: int|
        0 <= k < scope.len() ==> !(diagnosis(#[trigger] scope[k], input, critic) is Fail) {
        if first_failure(d, 0) is Some {
            let f = first_failure(d, 0)->0;
            assert(!(diagnosis(scope[f], input, critic) is Fail));
        }
    }
}

proof fn lemma_first_failure(
    d: Seq<(CandidateModule, crate::eval::rca::VerdictModel)>,
    from: int,
)
    requires
        0 <= from,
    ensures
        first_failure(d, from) matches Some(i) ==> from <= i < d.len() && d[i].1 is Fail
            && forall|k: int| from <= k < i ==> !((#[trigger] d[k]).1 is Fail),
        first_failure(d, from) is None ==> forall|k: int|
            from <= k < d.len() ==> !((#[trigger] d[k]).1 is Fail),
    decreases d.len() - from,
{
    if from < d.len() && !(d[from].1 is Fail) {
        lemma_first_failure(d, from + 1);
    }
}

/// An answer without a tool call is laid to the choice of tools by a pipeline as
/// it is made.
pub proof fn law_a_missing_call_is_laid_to_the_choice_of_tools(
    pipeline: &RcaPipeline,
    input: RcaInput,
    turns: &[TurnRecord],
    critic: Option<bool>,
    duration_ms: u64,
    now: Timestamp,
    r: RcaResult,
)
    requires
        call_ensures(RcaPipeline::new, (), *pipeline),
        call_ensures(RcaPipeline::analyze, (pipeline, input, turns, critic, duration_ms, now), r),
        input.tool_calls@.len() == 0,
        input.response@.len() > 0,
    ensures
        r.phenomenon@ == "ToolNotCalled"@,
        r.responsibility_module is ToolSelection,
        r.problem_enumeration@ == "关键工具未调用"@,
        r.process_deviation@ == "过程偏离: 未调用任何工具就直接生成回复"@,
{
    law_the_first_failed_candidate_is_blamed(
        pipeline,
        input,
        turns,
        critic,
        duration_ms,
        now,
        r,
        0,
    );
    assert(pipeline.module_mapping.find_from(ProblemPhenomenon::ToolNotCalled, 0) is Some);
}

/// What the critic is asked about is what was answered, and only where the
/// generation of the answer is a candidate.
pub proof fn law_the_critic_is_asked_about_the_answer(
    pipeline: &RcaPipeline,
    input: &RcaInput,
    r: Option<String>,
)
    requires
        call_ensures(RcaPipeline::critic_request, (pipeline, input), r),
    ensures
        r is Some <==> scope_of(pipeline.module_mapping, phenomenon_of(*input)).contains(
            CandidateModule::ResponseGeneration,
        ),
        r is Some ==> occurs(r->0@, input.response@),
{
    if r is Some {
        let a = "Evaluate whether the response faithfully reflects available evidence.\nEvidence (tool calls): "@
            + crate::text::debug_list(
            input.tool_calls@.map_values(|t: crate::eval::types::ToolCallRecord| t.name@),
        ) + "\nResponse: "@;
        let b = "\nDoes the response accurately use the evidence? Answer PASS or FAIL with reason."@;
        law_a_text_occurs_where_it_stands(a, input.response@, b, r->0@);
    }
}

/// The evidence begins with what was asked and what was answered; then each tool
/// call stands in its turn, with its name and its arguments.
pub proof fn law_the_evidence_shows_everything(
    input: &RcaInput,
    turns: &[TurnRecord],
    r: Vec<String>,
    i: int,
)
    requires
        call_ensures(collect_evidence, (input, turns), r),
    ensures
        r@.len() >= 2 + input.tool_calls@.len(),
        r@[0]@ == "User input: "@ + input.user_input@,
        r@[1]@ == "Agent response: "@ + input.response@,
        0 <= i < input.tool_calls@.len() ==> occurs(r@[2 + i]@, input.tool_calls@[i].name@)
            && occurs(r@[2 + i]@, input.tool_calls@[i].args@),
        0 <= i < turns@.len() && turns@[i].assistant_response@.len() > 0 ==> exists|k: int|
            2 + input.tool_calls@.len() <= k < r@.len() && occurs(
                (#[trigger] r@[k])@,
                turns@[i].assistant_response@,
            ),
        (forall|k: int| 0 <= k < turns@.len() ==> (#[trigger] turns@[k]).assistant_response@.len()
            == 0) ==> r@.len() == 2 + input.tool_calls@.len(),
{
    let all = texts(r@);
    let lines = turn_lines(turns@);
    let n = 2 + input.tool_calls@.len() as int;
    assert(all.len() == r@.len());
    assert(all[0] == r@[0]@ && all[1] == r@[1]@);
    if 0 <= i < input.tool_calls@.len() {
        let tc = input.tool_calls@[i];
        assert(all[2 + i] == r@[2 + i]@);
        assert(all[2 + i] == call_line(tc));
        let tail = ") → success="@ + crate::eval::rca::truth(tc.success) + " in "@
            + crate::text::decimal(tc.duration_ms as nat) + "ms"@;
        law_a_text_occurs_where_it_stands(
            "Tool call: "@,
            tc.name@,
            "("@ + tc.args@ + tail,
            all[2 + i],
        );
        assert("Tool call: "@ + tc.name@ + ("("@ + tc.args@ + tail) =~= call_line(tc));
        law_a_text_occurs_where_it_stands(
            "Tool call: "@ + tc.name@ + "("@,
            tc.args@,
            tail,
            all[2 + i],
        );
        assert("Tool call: "@ + tc.name@ + "("@ + tc.args@ + tail =~= call_line(tc));
    }
    lemma_turn_lines(turns@);
    if 0 <= i < turns@.len() && turns@[i].assistant_response@.len() > 0 {
        let k = choose|k: int|
            0 <= k < lines.len() && occurs(#[trigger] lines[k], turns@[i].assistant_response@);
        assert(all[n + k] == lines[k]);
        assert(r@[n + k]@ == lines[k]);
    }
}

proof fn lemma_turn_lines(turns: Seq<TurnRecord>)
    ensures
        forall|i: int|
            0 <= i < turns.len() && (#[trigger] turns[i]).assistant_response@.len() > 0
                ==> exists|k: int|
                0 <= k < turn_lines(turns).len() && occurs(
                    #[trigger] turn_lines(turns)[k],
                    turns[i].assistant_response@,
                ),
        (forall|k: int| 0 <= k < turns.len() ==> (#[trigger] turns[k]).assistant_response@.len()
            == 0) ==> turn_lines(turns).len() == 0,
    decreases turns.len(),
{
    if turns.len() > 0 {
        let less = turns.drop_last();
        lemma_turn_lines(less);
        let t = turns.last();
        assert forall|i: int|
            0 <= i < turns.len() && (#[trigger] turns[i]).assistant_response@.len()
                > 0 implies exists|k: int|
            0 <= k < turn_lines(turns).len() && occurs(
                #[trigger] turn_lines(turns)[k],
                turns[i].assistant_response@,
            ) by {
            if i == turns.len() - 1 {
                let front = "Turn "@ + crate::text::decimal(t.index as nat) + " response: "@;
                let none = Seq::<char>::empty();
                law_a_text_occurs_where_it_stands(
                    front,
                    t.assistant_response@,
                    none,
                    turn_lines(turns).last(),
                );
                assert(front + t.assistant_response@ + none =~= turn_lines(turns).last());
                assert(occurs(
                    turn_lines(turns)[turn_lines(turns).len() - 1],
                    turns[i].assistant_response@,
                ));
            } else {
                assert(less[i] == turns[i]);
                let k = choose|k: int|
                    0 <= k < turn_lines(less).len() && occurs(
                        #[trigger] turn_lines(less)[k],
                        less[i].assistant_response@,
                    );
                assert(turn_lines(turns)[k] == turn_lines(less)[k]);
            }
        }
        if forall|k: int| 0 <= k < turns.len() ==> (#[trigger] turns[k]).assistant_response@.len()
            == 0 {
            assert forall|k: int| 0 <= k < less.len() implies (
            #[trigger] less[k]).assistant_response@.len() == 0 by {
                assert(less[k] == turns[k]);
            }
        }
    }
}

/// What went wrong on the way is described in full: each call that failed is
/// named, an answer that is too short after calls is told, and nothing is found
/// just where there is nothing of this.
pub proof fn law_every_deviation_is_described(input: &RcaInput, r: String, i: int)
    requires
        call_ensures(describe_process_deviation, (input,), r),
    ensures
        input.tool_calls@.len() == 0 && input.response@.len() > 0 ==> r@
            == "过程偏离: 未调用任何工具就直接生成回复"@,
        0 <= i < input.tool_calls@.len() && !input.tool_calls@[i].success ==> occurs(
            r@,
            input.tool_calls@[i].name@,
        ),
        input.tool_calls@.len() > 0 && bytes_of(input.response@).len() < 10 ==> occurs(
            r@,
            "过程偏离: 调用了工具但回复过短"@,
        ),
        (forall|k: int| 0 <= k < input.tool_calls@.len() ==> (#[trigger] input.tool_calls@[k]).success)
            && bytes_of(input.response@).len() >= 10 && input.tool_calls@.len() > 0 ==> r@
            == "未检测到明显过程偏离"@,
{
    let n = input.tool_calls@.len() as int;
    let failed = deviation_details(*input, n);
    let all = if n > 0 && bytes_of(input.response@).len() < 10 {
        failed.push("过程偏离: 调用了工具但回复过短"@)
    } else {
        failed
    };
    lemma_deviations(*input, n);
    if 0 <= i < n && !input.tool_calls@[i].success {
        let k = choose|k: int|
            0 <= k < failed.len() && occurs(#[trigger] failed[k], input.tool_calls@[i].name@);
        assert(all[k] == failed[k]);
        law_what_is_joined_holds_its_parts(all, "; "@, k);
        lemma_occurs_through(joined(all, "; "@), all[k], input.tool_calls@[i].name@);
    }
    if n > 0 && bytes_of(input.response@).len() < 10 {
        law_what_is_joined_holds_its_parts(all, "; "@, all.len() - 1);
    }
}

proof fn lemma_deviations(input: RcaInput, n: int)
    requires
        0 <= n <= input.tool_calls@.len(),
    ensures
        forall|i: int|
            0 <= i < n && !(#[trigger] input.tool_calls@[i]).success ==> exists|k: int|
                0 <= k < deviation_details(input, n).len() && occurs(
                    #[trigger] deviation_details(input, n)[k],
                    input.tool_calls@[i].name@,
                ),
        (forall|i: int| 0 <= i < n ==> (#[trigger] input.tool_calls@[i]).success)
            ==> deviation_details(input, n).len() == 0,
    decreases n,
{
    if n > 0 {
        lemma_deviations(input, n - 1);
        let now = deviation_details(input, n);
        let less = deviation_details(input, n - 1);
        let tc = input.tool_calls@[n - 1];
        assert forall|i: int|
            0 <= i < n && !(#[trigger] input.tool_calls@[i]).success implies exists|k: int|
            0 <= k < now.len() && occurs(#[trigger] now[k], input.tool_calls@[i].name@) by {
            if i == n - 1 {
                let tail = "(参数: "@ + tc.args@ + ") - 耗时 "@ + crate::text::decimal(
                    tc.duration_ms as nat,
                ) + "ms"@;
                law_a_text_occurs_where_it_stands(
                    "工具调用失败: "@,
                    tc.name@,
                    tail,
                    now.last(),
                );
                assert("工具调用失败: "@ + tc.name@ + tail =~= now.last());
                assert(occurs(now[now.len() - 1], input.tool_calls@[i].name@));
            } else {
                let k = choose|k: int|
                    0 <= k < less.len() && occurs(
                        #[trigger] less[k],
                        input.tool_calls@[i].name@,
                    );
                assert(now[k] == less[k]);
            }
        }
    }
}

/// A short answer without a call is a refusal that the policy is asked about; no
/// other answer is.
pub proof fn law_a_bare_refusal_is_laid_to_the_policy(
    input: &RcaInput,
    r: Option<(CandidateModule, Option<CandidateModule>, String, String, String)>,
)
    requires
        call_ensures(match_rules, (input,), r),
    ensures
        r is Some <==> input.tool_calls@.len() == 0 && bytes_of(input.response@).len() < 20,
        r matches Some(m) ==> m.0 is PolicyEnforcement && m.1 is None && m.3@ == "不当拒答"@,
{
}

/// What is analyzed of a trial is that trial: its task, what was asked, what was
/// answered and the calls that were made.
pub proof fn law_a_trial_is_analyzed_as_it_went(
    task_id: &str,
    trial: TrialResult,
    task_input: &str,
    r: RcaInput,
    c: String,
)
    requires
        call_ensures(rca_input_from_trial, (task_id, trial, task_input), r),
        call_ensures(conversation_id, (&r,), c),
    ensures
        r.task_id@ == task_id@,
        r.run_id@ == task_id@,
        r.user_input@ == task_input@,
        r.response@ == trial.response@,
        r.tool_calls@ == trial.tool_calls@,
        r.scoring == Some(trial),
        r.entry is AutoDetected,
        c@ == "eval_"@ + task_id@ + "_"@ + task_id@,
{
}

/// A phenomenon is read back from its name, and no other name is one.
pub proof fn law_phenomena_read_back(p: ProblemPhenomenon, name: Seq<char>)
    ensures
        phenomenon_named(p.named()) == Some(p),
        phenomenon_named(name) == Some(p) ==> name == p.named(),
{
    reveal_strlit("NonResponsive");
    reveal_strlit("OrderNotClarified");
    reveal_strlit("FactualError");
    reveal_strlit("OverPromise");
    reveal_strlit("ToolNotCalled");
    reveal_strlit("ToolWrongOrder");
    reveal_strlit("Hallucination");
    reveal_strlit("RefusalError");
    assert("NonResponsive"@.len() == 13 && "NonResponsive"@[0] == 'N');
    assert("OrderNotClarified"@.len() == 17);
    assert("FactualError"@.len() == 12 && "FactualError"@[0] == 'F');
    assert("OverPromise"@.len() == 11);
    assert("ToolNotCalled"@.len() == 13 && "ToolNotCalled"@[0] == 'T');
    assert("ToolWrongOrder"@.len() == 14);
    assert("Hallucination"@.len() == 13 && "Hallucination"@[0] == 'H');
    assert("RefusalError"@.len() == 12 && "RefusalError"@[0] == 'R');
}

/// A module goes by the name of its variant, so that no two share one.
pub proof fn law_modules_go_by_their_names(m: CandidateModule, r: String)
    requires
        call_ensures(CandidateModule::name, (&m,), r),
    ensures
        m is IntentRecognition ==> r@ == "IntentRecognition"@,
        m is SlotFilling ==> r@ == "SlotFilling"@,
        m is ContextMemory ==> r@ == "ContextMemory"@,
        m is Retrieval ==> r@ == "Retrieval"@,
        m is ToolSelection ==> r@ == "ToolSelection"@,
        m is ToolExecution ==> r@ == "ToolExecution"@,
        m is ParameterConstruction ==> r@ == "ParameterConstruction"@,
        m is Reasoning ==> r@ == "Reasoning"@,
        m is ResponseGeneration ==> r@ == "ResponseGeneration"@,
        m is PolicyEnforcement ==> r@ == "PolicyEnforcement"@,
        m is SystemInfra ==> r@ == "SystemInfra"@,
{
}

/// A module belongs to the team that works on it, and its failures to one
/// category.
pub proof fn law_modules_belong_to_their_teams(
    m: &CandidateModule,
    owner: &'static str,
    category: &'static str,
)
    requires
        call_ensures(module_to_owner, (m,), owner),
        call_ensures(module_category, (m,), category),
    ensures
        *m is IntentRecognition || *m is SlotFilling ==> owner@ == "nlp_team"@,
        *m is ContextMemory ==> owner@ == "memory_team"@,
        *m is Retrieval ==> owner@ == "knowledge_team"@,
        *m is ToolSelection || *m is ToolExecution || *m is ParameterConstruction ==> owner@
            == "tool_team"@,
        *m is Reasoning ==> owner@ == "reasoning_team"@,
        *m is ResponseGeneration ==> owner@ == "generation_team"@,
        *m is PolicyEnforcement ==> owner@ == "policy_team"@,
        *m is SystemInfra ==> owner@ == "infra_team"@,
        *m is IntentRecognition ==> category@ == "语义理解"@,
        *m is SlotFilling ==> category@ == "槽位抽取"@,
        *m is ContextMemory ==> category@ == "上下文记忆"@,
        *m is Retrieval ==> category@ == "知识召回"@,
        *m is ToolSelection || *m is ToolExecution ==> category@ == "工具执行"@,
        *m is ParameterConstruction ==> category@ == "参数构造"@,
        *m is Reasoning ==> category@ == "推理决策"@,
        *m is ResponseGeneration ==> category@ == "回复生成"@,
        *m is PolicyEnforcement ==> category@ == "风险防控"@,
        *m is SystemInfra ==> category@ == "系统基础设施"@,
{
}

/// What is looked up is the first resolution of that problem in that module;
/// nothing is found only where there is none.
pub proof fn law_the_first_resolution_is_found(
    base: &RcaKnowledgeBase,
    problem: &str,
    module: &CandidateModule,
    r: Option<&RcaKnowledgeBaseEntry>,
)
    requires
        call_ensures(RcaKnowledgeBase::lookup, (base, problem, module), r),
    ensures
        r matches Some(e) ==> e@.problem == problem@ && e@.module == *module && base@.contains(e@),
        r is None ==> forall|k: int|
            0 <= k < base@.len() ==> !((#[trigger] base@[k]).problem == problem@
                && base@[k].module == *module),
{
    lemma_known(base@, problem@, *module, 0);
}

proof fn lemma_known(entries: Seq<KnownModel>, problem: Seq<char>, module: CandidateModule, i: int)
    requires
        0 <= i,
    ensures
        known_from(entries, problem, module, i) matches Some(k) ==> i <= k < entries.len()
            && entries[k].problem == problem && entries[k].module == module,
        known_from(entries, problem, module, i) is None ==> forall|k: int|
            i <= k < entries.len() ==> !((#[trigger] entries[k]).problem == problem
                && entries[k].module == module),
    decreases entries.len() - i,
{
    if i < entries.len() && !(entries[i].problem == problem && entries[i].module == module) {
        lemma_known(entries, problem, module, i + 1);
    }
}

/// A suggested fix says why the module failed, and holds every fix that is known
/// for its problem.
pub proof fn law_a_fix_says_why(
    pipeline: &RcaPipeline,
    module: &CandidateModule,
    reason: &str,
    r: (String, String, String),
    k: int,
    j: int,
)
    requires
        call_ensures(RcaPipeline::lookup_fix, (pipeline, module, reason), r),
    ensures
        occurs(r.2@, reason@),
        known_from(pipeline.knowledge_base@, problem_of(*module), *module, 0) == Some(k) && 0 <= j
            < pipeline.knowledge_base@[k].fixes.len() ==> occurs(
            r.2@,
            pipeline.knowledge_base@[k].fixes[j],
        ),
{
    let entries = pipeline.knowledge_base@;
    let none = Seq::<char>::empty();
    let head = "模块 "@ + module.named() + " 诊断失败: "@;
    law_a_text_occurs_where_it_stands(
        head,
        reason@,
        ". 请检查配置、Prompt 或实现。"@,
        none,
    );
    law_a_text_occurs_where_it_stands(
        head,
        reason@,
        "。请检查模块配置、Prompt 或实现。"@,
        none,
    );
    match known_from(entries, problem_of(*module), *module, 0) {
        Some(i) => {
            let fixes = joined(entries[i].fixes, "; "@);
            let front = "建议修复: "@ + fixes + "。诊断详情: "@;
            law_a_text_occurs_where_it_stands(front, reason@, none, none);
            if entries[i].fixes.len() > 0 {
                assert(front + reason@ + none =~= r.2@);
                if i == k && 0 <= j < entries[i].fixes.len() {
                    law_what_is_joined_holds_its_parts(entries[i].fixes, "; "@, j);
                    let back = "。诊断详情: "@ + reason@;
                    lemma_occurs_in_more("建议修复: "@, fixes, back, entries[i].fixes[j]);
                    assert("建议修复: "@ + fixes + back =~= r.2@);
                }
            }
        },
        None => {},
    }
}

/// Every problem that a diagnosis can name has fixes from the start.
pub proof fn law_every_diagnosed_problem_has_known_fixes(
    base: RcaKnowledgeBase,
    module: &CandidateModule,
    problem: &str,
    r: Option<&RcaKnowledgeBaseEntry>,
)
    requires
        call_ensures(RcaKnowledgeBase::new, (), base),
        call_ensures(RcaKnowledgeBase::lookup, (&base, problem, module), r),
    ensures
        *module is ToolSelection && problem@ == "关键工具未调用"@ ==> r is Some,
        *module is IntentRecognition && problem@ == "意图识别错误"@ ==> r is Some,
        *module is Retrieval && problem@ == "知识召回不足"@ ==> r is Some,
        *module is ResponseGeneration && problem@ == "回复质量缺陷"@ ==> r is Some,
        *module is PolicyEnforcement && (problem@ == "策略违规"@ || problem@ == "过度承诺"@
            || problem@ == "拒绝策略不当"@) ==> r is Some,
        *module is ResponseGeneration && problem@ == "幻觉回复"@ ==> r is Some,
        r is Some ==> r->0@.fixes.len() > 0 && r->0@.hits == 0,
{
    lemma_known(base@, problem@, *module, 0);
    let all = base@;
    assert(all == crate::eval::rca::seeded());
    assert(all[0].problem == "关键工具未调用"@ && all[0].module is ToolSelection);
    assert(all[1].problem == "意图识别错误"@ && all[1].module is IntentRecognition);
    assert(all[2].problem == "知识召回不足"@ && all[2].module is Retrieval);
    assert(all[3].problem == "回复质量缺陷"@ && all[3].module is ResponseGeneration);
    assert(all[4].problem == "策略违规"@ && all[4].module is PolicyEnforcement);
    assert(all[5].problem == "过度承诺"@ && all[5].module is PolicyEnforcement);
    assert(all[6].problem == "幻觉回复"@ && all[6].module is ResponseGeneration);
    assert(all[7].problem == "拒绝策略不当"@ && all[7].module is PolicyEnforcement);
}

/// A module that failed is laid the problem of its kind, in its own category.
pub proof fn law_a_failed_module_has_the_problem_of_its_kind(
    pipeline: &RcaPipeline,
    module: &CandidateModule,
    reason: &str,
    r: (String, String, String),
)
    requires
        call_ensures(RcaPipeline::lookup_fix, (pipeline, module, reason), r),
    ensures
        *module is ToolSelection ==> r.1@ == "关键工具未调用"@ && r.0@ == "工具执行"@,
        *module is IntentRecognition ==> r.1@ == "意图识别错误"@ && r.0@ == "语义理解"@,
        *module is Retrieval ==> r.1@ == "知识召回不足"@ && r.0@ == "知识召回"@,
        *module is ResponseGeneration ==> r.1@ == "回复质量缺陷"@ && r.0@ == "回复生成"@,
        *module is PolicyEnforcement ==> r.1@ == "策略违规"@ && r.0@ == "风险防控"@,
        *module is SlotFilling || *module is ContextMemory || *module is ToolExecution
            || *module is ParameterConstruction || *module is Reasoning || *module is SystemInfra
            ==> r.1@ == "未分类错误"@,
{
}

/// A call stands in the evidence with how it ended and how long it took.
pub proof fn law_a_call_is_shown_with_its_outcome(
    input: &RcaInput,
    turns: &[TurnRecord],
    r: Vec<String>,
    i: int,
)
    requires
        call_ensures(collect_evidence, (input, turns), r),
        0 <= i < input.tool_calls@.len(),
    ensures
        r@[2 + i]@ == "Tool call: "@ + input.tool_calls@[i].name@ + "("@
            + input.tool_calls@[i].args@ + ") → success="@ + (if input.tool_calls@[i].success {
            "true"@
        } else {
            "false"@
        }) + " in "@ + crate::text::decimal(input.tool_calls@[i].duration_ms as nat) + "ms"@,
{
    law_the_evidence_shows_everything(input, turns, r, i);
    let all = texts(r@);
    assert(all.len() == r@.len());
    assert(all[2 + i] == r@[2 + i]@);
    assert(all[2 + i] == call_line(input.tool_calls@[i]));
}

/// What is suggested for a bare refusal is to look at the rules of refusal, and
/// for what nobody can be blamed for to let people look at the case.
pub proof fn law_what_nobody_failed_in_is_left_to_people(
    pipeline: &RcaPipeline,
    input: RcaInput,
    turns: &[TurnRecord],
    critic: Option<bool>,
    duration_ms: u64,
    now: Timestamp,
    r: RcaResult,
)
    requires
        call_ensures(RcaPipeline::analyze, (pipeline, input, turns, critic, duration_ms, now), r),
        forall|k: int|
            0 <= k < scope_of(pipeline.module_mapping, phenomenon_of(input)).len() ==> !(diagnosis(
                #[trigger] scope_of(pipeline.module_mapping, phenomenon_of(input))[k],
                input,
                critic,
            ) is Fail),
    ensures
        input.tool_calls@.len() == 0 && bytes_of(input.response@).len() < 20
            ==> r.fix_suggestion@ == "检查拒答策略和 Guardrail 规则"@,
        input.tool_calls@.len() > 0 || bytes_of(input.response@).len() >= 20
            ==> r.fix_suggestion@ == "请人工分析此案例"@ && r.problem_category@ == "语义理解"@,
        r.responsibility@ == "无法明确归因 — 需要人工分析"@,
{
    let scope = scope_of(pipeline.module_mapping, phenomenon_of(input));
    let d = diagnoses_of(scope, input, critic);
    assert forall|k: int| 0 <= k < scope.len() implies #[trigger] d[k] == (
        scope[k],
        diagnosis(scope[k], input, critic),
    ) by {}
    lemma_first_failure(d, 0);
    if first_failure(d, 0) is Some {
        let f = first_failure(d, 0)->0;
        assert(!(diagnosis(scope[f], input, critic) is Fail));
    }
    lemma_none_failed(d, d.len() as int);
    assert(d.take(d.len() as int) =~= d);
}

proof fn lemma_none_failed(d: Seq<(CandidateModule, crate::eval::rca::VerdictModel)>, n: int)
    requires
        0 <= n <= d.len(),
        forall|k: int| 0 <= k < n ==> !((#[trigger] d[k]).1 is Fail),
    ensures
        crate::eval::rca::failed_modules(d.take(n)).len() == 0,
    decreases n,
{
    if n > 0 {
        assert(d.take(n).drop_last() =~= d.take(n - 1));
        lemma_none_failed(d, n - 1);
    }
}

} // verus!

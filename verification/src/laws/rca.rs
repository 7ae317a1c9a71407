//! Laws of the analysis of failures.
use vstd::prelude::*;

use crate::eval::rca::{
    compute_confidence, detect_phenomenon, determine_responsibility, diagnose_module,
    failed_modules, find_promise, phenomenon_of_weakness, told_by, verdicts, weakness_points_to,
    CandidateModule, ModuleVerdict, ProblemPhenomenon, RcaInput, VerdictModel,
};
use crate::scalar::Double;
use crate::text::{bytes_of, lowercase, occurs, texts};

verus! {

/// The words by which a response promises too much, in the order in which they
/// are looked for.
pub open spec fn promise_words() -> Seq<Seq<char>> {
    seq!["一定"@, "保证"@, "肯定"@, "承诺"@, "绝对"@]
}

/// Whether the `j`-th of some words is the first that occurs in a text.
pub open spec fn is_first_occurring(list: Seq<Seq<char>>, s: Seq<char>, j: int) -> bool {
    0 <= j < list.len() && occurs(s, list[j]) && forall|k: int|
        0 <= k < j ==> !occurs(s, #[trigger] list[k])
}

/// Whether one of some words occurs in a text.
pub open spec fn some_occurs(list: Seq<Seq<char>>, s: Seq<char>) -> bool {
    exists|j: int| 0 <= j < list.len() && occurs(s, #[trigger] list[j])
}

/// The word that is found is the first of the list that occurs; none is found
/// just where none occurs.
pub proof fn law_the_first_promise_is_found(response: &str, r: Option<String>, j: int)
    requires
        call_ensures(find_promise, (response,), r),
    ensures
        r is Some <==> some_occurs(promise_words(), response@),
        is_first_occurring(promise_words(), response@, j) ==> r is Some && r->0@
            == promise_words()[j],
{
    let list = promise_words();
    assert(list[0] == "一定"@ && list[1] == "保证"@ && list[2] == "肯定"@ && list[3] == "承诺"@
        && list[4] == "绝对"@);
}

/// A response in which one of the words occurs, in whatever case, violates the
/// policy, and the verdict names the first of them that does; a response passes
/// only where none of them occurs.
pub proof fn law_a_promise_violates_the_policy(
    input: &RcaInput,
    critic: Option<bool>,
    r: ModuleVerdict,
    j: int,
)
    requires
        call_ensures(diagnose_module, (&CandidateModule::PolicyEnforcement, input, critic), r),
    ensures
        r@ is Fail <==> some_occurs(promise_words(), lowercase(input.response@)),
        r@ is Pass <==> !some_occurs(promise_words(), lowercase(input.response@)),
        is_first_occurring(promise_words(), lowercase(input.response@), j) ==> r@
            == VerdictModel::Fail("包含过度承诺关键词 '"@ + promise_words()[j] + "'"@),
{
    let list = promise_words();
    assert(list[0] == "一定"@ && list[1] == "保证"@ && list[2] == "肯定"@ && list[3] == "承诺"@
        && list[4] == "绝对"@);
}

/// What the other modules are blamed for: the choice of tools for an answer
/// without any call, the intent for an answer to nothing, the generation for what
/// the critic rejects. Retrieval is only suspected, for a long answer without a
/// search. A module that nothing of it can be told of passes.
pub proof fn law_modules_fail_for_their_own_fault(
    module: &CandidateModule,
    input: &RcaInput,
    critic: Option<bool>,
    r: ModuleVerdict,
)
    requires
        call_ensures(diagnose_module, (module, input, critic), r),
    ensures
        *module is ToolSelection ==> (r@ is Fail <==> input.tool_calls@.len() == 0
            && input.response@.len() > 0),
        *module is IntentRecognition ==> (r@ is Fail <==> input.user_input@.len() == 0
            && input.response@.len() > 0),
        *module is ResponseGeneration ==> (r@ is Fail <==> critic == Some(false)),
        r@ is SoftPass <==> *module is Retrieval && bytes_of(input.response@).len() > 50
            && forall|i: int|
            0 <= i < input.tool_calls@.len() ==> !occurs(
                (#[trigger] input.tool_calls@[i]).name@,
                "search"@,
            ) && !occurs(input.tool_calls@[i].name@, "fetch"@) && !occurs(
                input.tool_calls@[i].name@,
                "memory"@,
            ),
        *module is Retrieval || *module is SlotFilling || *module is ContextMemory
            || *module is ToolExecution || *module is ParameterConstruction || *module is Reasoning
            || *module is SystemInfra ==> !(r@ is Fail),
{
}

/// The signs by which a weakness is told, in the order in which they are looked
/// for, each with what it tells.
pub open spec fn signs() -> Seq<(Seq<char>, ProblemPhenomenon)> {
    seq![
        ("承诺"@, ProblemPhenomenon::OverPromise),
        ("overpromise"@, ProblemPhenomenon::OverPromise),
        ("幻觉"@, ProblemPhenomenon::Hallucination),
        ("hallucination"@, ProblemPhenomenon::Hallucination),
        ("编造"@, ProblemPhenomenon::Hallucination),
        ("事实"@, ProblemPhenomenon::FactualError),
        ("factual"@, ProblemPhenomenon::FactualError),
        ("错误"@, ProblemPhenomenon::FactualError),
        ("拒绝"@, ProblemPhenomenon::RefusalError),
        ("refus"@, ProblemPhenomenon::RefusalError),
        ("偏题"@, ProblemPhenomenon::NonResponsive),
        ("off-topic"@, ProblemPhenomenon::NonResponsive),
    ]
}

/// A weakness tells what the first sign that occurs in it stands for; one
/// without a sign tells nothing.
pub proof fn law_a_weakness_tells_its_first_sign(
    w: &str,
    r: Option<ProblemPhenomenon>,
    j: int,
)
    requires
        call_ensures(phenomenon_of_weakness, (w,), r),
    ensures
        0 <= j < signs().len() && occurs(w@, signs()[j].0) ==> r is Some,
        0 <= j < signs().len() && occurs(w@, signs()[j].0) && (forall|k: int|
            0 <= k < j ==> !occurs(w@, (#[trigger] signs()[k]).0)) ==> r == Some(signs()[j].1),
        (forall|k: int| 0 <= k < signs().len() ==> !occurs(w@, (#[trigger] signs()[k]).0)) ==> r
            is None,
{
    let s = signs();
    assert(s[0].0 == "承诺"@ && s[1].0 == "overpromise"@ && s[2].0 == "幻觉"@ && s[3].0
        == "hallucination"@ && s[4].0 == "编造"@ && s[5].0 == "事实"@ && s[6].0 == "factual"@
        && s[7].0 == "错误"@ && s[8].0 == "拒绝"@ && s[9].0 == "refus"@ && s[10].0 == "偏题"@
        && s[11].0 == "off-topic"@);
}

/// An answer without a tool call shows that a tool was not called, whatever the
/// critic says; else the first weakness that tells anything decides, read in
/// small letters, and without one it is a factual error.
pub proof fn law_the_phenomenon_is_what_is_told_first(
    input: &RcaInput,
    r: ProblemPhenomenon,
    i: int,
    w: &str,
    told: Option<ProblemPhenomenon>,
)
    requires
        call_ensures(detect_phenomenon, (input,), r),
        call_ensures(phenomenon_of_weakness, (w,), told),
    ensures
        input.tool_calls@.len() == 0 && input.response@.len() > 0 ==> r is ToolNotCalled,
        (input.tool_calls@.len() > 0 || input.response@.len() == 0) && (input.scoring is None
            || input.scoring->0.critique is None) ==> r is FactualError,
        (input.tool_calls@.len() > 0 || input.response@.len() == 0) && input.scoring is Some
            && input.scoring->0.critique is Some ==> {
            let list = texts(input.scoring->0.critique->0.weaknesses@);
            &&& 0 <= i < list.len() && w@ == lowercase(list[i]) && told is Some && (forall|k: int|
                0 <= k < i ==> silent(#[trigger] list[k])) ==> r == told->0
            &&& (forall|k: int| 0 <= k < list.len() ==> silent(#[trigger] list[k])) ==> r
                is FactualError
        },
{
    if input.scoring is Some && input.scoring->0.critique is Some {
        let list = texts(input.scoring->0.critique->0.weaknesses@);
        if 0 <= i < list.len() && w@ == lowercase(list[i]) && told is Some && (forall|k: int|
            0 <= k < i ==> silent(#[trigger] list[k])) {
            lemma_told(list, 0, i);
        }
        if forall|k: int| 0 <= k < list.len() ==> silent(#[trigger] list[k]) {
            lemma_silent(list, 0);
        }
    }
}

/// Whether no sign occurs in a weakness, read in small letters.
pub open spec fn silent(w: Seq<char>) -> bool {
    forall|k: int| 0 <= k < signs().len() ==> !occurs(lowercase(w), (#[trigger] signs()[k]).0)
}

proof fn lemma_silent_one(w: Seq<char>)
    requires
        silent(w),
    ensures
        weakness_points_to(lowercase(w)) is None,
{
    let s = signs();
    assert(s[0].0 == "承诺"@ && s[1].0 == "overpromise"@ && s[2].0 == "幻觉"@ && s[3].0
        == "hallucination"@ && s[4].0 == "编造"@ && s[5].0 == "事实"@ && s[6].0 == "factual"@
        && s[7].0 == "错误"@ && s[8].0 == "拒绝"@ && s[9].0 == "refus"@ && s[10].0 == "偏题"@
        && s[11].0 == "off-topic"@);
}

proof fn lemma_told(list: Seq<Seq<char>>, from: int, i: int)
    requires
        0 <= from <= i < list.len(),
        forall|k: int| from <= k < i ==> silent(#[trigger] list[k]),
        weakness_points_to(lowercase(list[i])) is Some,
    ensures
        told_by(list, from) == weakness_points_to(lowercase(list[i])),
    decreases i - from,
{
    if from < i {
        lemma_silent_one(list[from]);
        lemma_told(list, from + 1, i);
    }
}

proof fn lemma_silent(list: Seq<Seq<char>>, from: int)
    requires
        0 <= from <= list.len(),
        forall|k: int| from <= k < list.len() ==> silent(#[trigger] list[k]),
    ensures
        told_by(list, from) is None,
    decreases list.len() - from,
{
    if from < list.len() {
        lemma_silent_one(list[from]);
        lemma_silent(list, from + 1);
    }
}

/// Whether just one module of some failed, the `i`-th.
pub open spec fn only_failure(d: Seq<(CandidateModule, ModuleVerdict)>, i: int) -> bool {
    0 <= i < d.len() && forall|k: int|
        0 <= k < d.len() ==> ((#[trigger] d[k]).1@ is Fail <==> k == i)
}

/// Whether the `i`-th and the `j`-th module of some are the first two that
/// failed.
pub open spec fn first_failures(
    d: Seq<(CandidateModule, ModuleVerdict)>,
    i: int,
    j: int,
) -> bool {
    0 <= i < j < d.len() && forall|k: int|
        0 <= k <= j ==> ((#[trigger] d[k]).1@ is Fail <==> k == i || k == j)
}

/// The only module that failed bears the responsibility alone; of more, the
/// first bears it and the second shares it; where none failed, nobody is named.
pub proof fn law_the_modules_that_failed_are_responsible(
    d: &Vec<(CandidateModule, ModuleVerdict)>,
    r: String,
    c: Double,
    i: int,
    j: int,
)
    requires
        call_ensures(determine_responsibility, (d,), r),
        call_ensures(compute_confidence, (d,), c),
    ensures
        only_failure(d@, i) ==> r@ == d@[i].0.named() && c.bits == 0x3feb_3333_3333_3333,
        first_failures(d@, i, j) ==> r@ == d@[i].0.named() + " (主导), "@ + d@[j].0.named()
            + " (协同)"@ && c.bits == 0x3fe6_6666_6666_6666,
        (forall|k: int| 0 <= k < d@.len() ==> !((#[trigger] d@[k]).1@ is Fail)) ==> r@
            == "无法明确归因 — 需要人工分析"@ && c.bits == (if exists|k: int|
            0 <= k < d@.len() && (#[trigger] d@[k]).1@ is SoftPass {
            0x3fe0_0000_0000_0000u64
        } else {
            0x3fd3_3333_3333_3333u64
        }),
{
    let v = verdicts(d@);
    assert forall|k: int| 0 <= k < d@.len() implies #[trigger] v[k] == (d@[k].0, d@[k].1@) by {}
    if only_failure(d@, i) {
        lemma_failed(v, i);
        lemma_none_failed_behind(v, i + 1);
        assert(v.take(v.len() as int) =~= v);
        assert(failed_modules(v.take(i + 1)) =~= failed_modules(v.take(i)).push(v[i].0)) by {
            assert(v.take(i + 1).drop_last() =~= v.take(i));
        }
    }
    if first_failures(d@, i, j) {
        lemma_failed(v, i);
        assert(v.take(i + 1).drop_last() =~= v.take(i));
        lemma_none_failed_between(v, i + 1, j);
        assert(v.take(j + 1).drop_last() =~= v.take(j));
        lemma_failed_grow(v, j + 1);
        assert(failed_modules(v.take(j + 1)) =~= seq![v[i].0, v[j].0]);
        let f = failed_modules(v);
        assert(f[0] == failed_modules(v.take(j + 1))[0]);
        assert(f[1] == failed_modules(v.take(j + 1))[1]);
    }
    if forall|k: int| 0 <= k < d@.len() ==> !((#[trigger] d@[k]).1@ is Fail) {
        lemma_failed(v, v.len() as int);
        assert(v.take(v.len() as int) =~= v);
        if exists|k: int| 0 <= k < d@.len() && (#[trigger] d@[k]).1@ is SoftPass {
            let k = choose|k: int| 0 <= k < d@.len() && (#[trigger] d@[k]).1@ is SoftPass;
            assert(v[k].1 is SoftPass);
        } else {
            assert forall|k: int| 0 <= k < v.len() implies !((#[trigger] v[k]).1 is SoftPass) by {
                assert(!(d@[k].1@ is SoftPass));
            }
        }
    }
}

proof fn lemma_failed(v: Seq<(CandidateModule, VerdictModel)>, n: int)
    requires
        0 <= n <= v.len(),
        forall|k: int| 0 <= k < n ==> !((#[trigger] v[k]).1 is Fail),
    ensures
        failed_modules(v.take(n)).len() == 0,
        failed_modules(v.take(n)) == Seq::<CandidateModule>::empty(),
    decreases n,
{
    if n > 0 {
        assert(v.take(n).drop_last() =~= v.take(n - 1));
        lemma_failed(v, n - 1);
    }
}

proof fn lemma_none_failed_between(v: Seq<(CandidateModule, VerdictModel)>, a: int, b: int)
    requires
        0 <= a <= b <= v.len(),
        forall|k: int| a <= k < b ==> !((#[trigger] v[k]).1 is Fail),
    ensures
        failed_modules(v.take(b)) == failed_modules(v.take(a)),
    decreases b - a,
{
    if a < b {
        assert(v.take(b).drop_last() =~= v.take(b - 1));
        lemma_none_failed_between(v, a, b - 1);
    }
}

proof fn lemma_none_failed_behind(v: Seq<(CandidateModule, VerdictModel)>, a: int)
    requires
        0 <= a <= v.len(),
        forall|k: int| a <= k < v.len() ==> !((#[trigger] v[k]).1 is Fail),
    ensures
        failed_modules(v) == failed_modules(v.take(a)),
{
    assert(v.take(v.len() as int) =~= v);
    lemma_none_failed_between(v, a, v.len() as int);
}

proof fn lemma_failed_grow(v: Seq<(CandidateModule, VerdictModel)>, n: int)
    requires
        0 <= n <= v.len(),
    ensures
        failed_modules(v.take(n)).is_prefix_of(failed_modules(v)),
    decreases v.len() - n,
{
    assert(v.take(v.len() as int) =~= v);
    if n < v.len() {
        lemma_failed_grow(v, n + 1);
        assert(v.take(n + 1).drop_last() =~= v.take(n));
    }
}

} // verus!

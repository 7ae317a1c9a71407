//! Standalone runs of a suite: which tasks run, with which provider and judge,
//! what the run adds up to, and what is written down of it.
use vstd::prelude::*;
use vstd::string::*;

use rand::seq::SliceRandom;

use super::dataset::{EvalSuite, EvalTask};
use super::recycle::BadcaseGovernance;
use super::types::{SkillCheck, SkillResults};
use crate::agent::AgentConfig;
use crate::error::SyscityError;
use crate::gateway::agent_spawn::BuiltinTool;
use crate::gateway::config::memory::{
    answered, asked_in_order, found, usable_providers, SearchConfig, SearchProvider,
};
use crate::gateway::config::optimizer::BadcaseGovernanceConfig;
use crate::gateway::config::GatewayConfig;
use crate::gateway::events::TokenUsage;
use crate::path::{join_path, path_below};
use crate::scalar::{is_nan, rank, Double};
use crate::text::{
    cat, chars_of, comes_before, decimal, decimal_of, decimal_of_usize, is_one_of, join, joined,
    lemma_text_order, opt_text, same, string_of_range, text_less, texts, trim, trimmed,
};

verus! {

// ---------------------------------------------------------------------------
// Options
// ---------------------------------------------------------------------------

/// Which provider a run should use; what is left open is taken from the
/// configuration.
#[derive(Debug, Clone)]
pub struct ProviderSelection {
    /// The provider.
    pub provider: Option<String>,
    /// The model.
    pub model: Option<String>,
    /// The key of the API.
    pub api_key: Option<String>,
    /// The base URL of the API.
    pub base_url: Option<String>,
}

impl Default for ProviderSelection {
    /// Everything left open.
    fn default() -> (r: Self)
        ensures
            r == (ProviderSelection { provider: None, model: None, api_key: None, base_url: None }),
    {
        ProviderSelection { provider: None, model: None, api_key: None, base_url: None }
    }
}

/// Tunables of a run beyond what the manifest of the suite says.
#[derive(Debug, Clone)]
pub struct SuiteRunOptions {
    /// The directory of the evaluations.
    pub evals_dir: Option<String>,
    /// The number of trials.
    pub trials_override: Option<usize>,
    /// The sampling rate.
    pub sampling_rate_override: Option<Double>,
    /// Print the scores of each skill.
    pub skill_breakdown: bool,
    /// Collect badcases.
    pub collect_badcases: bool,
    /// The provider of the judge; left open, the agent's provider judges.
    pub judge: ProviderSelection,
    /// The ids of the only tasks to run.
    pub only_tasks: Option<Vec<String>>,
}

impl Default for SuiteRunOptions {
    /// The whole suite, as its manifest says.
    fn default() -> (r: Self)
        ensures
            r.evals_dir is None,
            r.trials_override is None,
            r.sampling_rate_override is None,
            !r.skill_breakdown,
            !r.collect_badcases,
            r.judge == (ProviderSelection {
                provider: None,
                model: None,
                api_key: None,
                base_url: None,
            }),
            r.only_tasks is None,
    {
        SuiteRunOptions {
            evals_dir: None,
            trials_override: None,
            sampling_rate_override: None,
            skill_breakdown: false,
            collect_badcases: false,
            judge: ProviderSelection::default(),
            only_tasks: None,
        }
    }
}

/// Where the manifest of a suite is.
pub fn suite_manifest_path(evals_dir: &str, suite_name: &str) -> (r: String)
    ensures
        r@ == path_below(path_below(evals_dir@, "suites"@), suite_name@ + ".yaml"@),
{
    join_path(&join_path(evals_dir, "suites"), &cat(suite_name, ".yaml"))
}

/// The error for a suite without a manifest, given the path as it is printed.
pub fn suite_not_found(suite_name: &str, shown_path: &str) -> (r: SyscityError)
    ensures
        r matches SyscityError::Validation(m) && m@ == "Suite '"@ + suite_name@ + "' not found at "@
            + shown_path@,
{
    let mut s = cat("Suite '", suite_name);
    s.append("' not found at ");
    s.append(shown_path);
    SyscityError::Validation(s)
}

// ---------------------------------------------------------------------------
// The tasks of a run
// ---------------------------------------------------------------------------

/// Whether a task is among the only ones to run.
pub open spec fn is_wanted(only: Seq<Seq<char>>, t: EvalTask) -> bool {
    only.contains(t.id@)
}

/// The ids of the only tasks to run; none where every task runs.
pub open spec fn only_ids(only: Option<Vec<String>>) -> Seq<Seq<char>> {
    match only {
        Some(ids) => texts(ids@),
        None => Seq::empty(),
    }
}

/// The tasks of a run: where only some are wanted, those.
pub open spec fn kept_tasks(tasks: Seq<EvalTask>, ids: Seq<Seq<char>>) -> Seq<EvalTask> {
    if ids.len() == 0 {
        tasks
    } else {
        tasks.filter(|t: EvalTask| is_wanted(ids, t))
    }
}

/// The tasks of a run: where only some are wanted, those. That none of them is
/// there is an error.
pub fn keep_only(tasks: Vec<EvalTask>, only: &Option<Vec<String>>) -> (r: Result<
    Vec<EvalTask>,
    SyscityError,
>)
    ensures
        ({
            let ids = only_ids(*only);
            let kept = kept_tasks(tasks@, ids);
            if ids.len() == 0 {
                r == Ok::<Vec<EvalTask>, SyscityError>(tasks)
            } else if kept.len() > 0 {
                r matches Ok(v) && v@ == kept
            } else {
                r matches Err(SyscityError::Validation(m)) && m@
                    == "--only matched no tasks in the suite"@
            }
        }),
{
    match only {
        Some(ids) => {
            if ids.is_empty() {
                return Ok(tasks);
            }
            let ghost all = tasks@;
            let ghost names = texts(ids@);
            let ghost p = |t: EvalTask| is_wanted(names, t);
            let mut out: Vec<EvalTask> = Vec::new();
            proof {
                assert(all.take(0) =~= Seq::empty());
                assert(out@ =~= all.take(0).filter(p)) by {
                    reveal(Seq::filter);
                }
            }
            for t in it: tasks
                invariant
                    it.seq() == all,
                    names == texts(ids@),
                    p == (|t: EvalTask| is_wanted(names, t)),
                    out@ == all.take(it.index()).filter(p),
            {
                proof {
                    let i = it.index();
                    assert(all.take(i + 1).drop_last() =~= all.take(i));
                    assert(all.take(i + 1).last() == t);
                    reveal(Seq::filter);
                }
                if is_one_of(ids.as_slice(), &t.id) {
                    out.push(t);
                }
            }
            assert(all.take(all.len() as int) =~= all);
            if out.is_empty() {
                Err(SyscityError::Validation("--only matched no tasks in the suite".to_string()))
            } else {
                Ok(out)
            }
        },
        None => Ok(tasks),
    }
}

/// What is said of the tasks that were kept of a suite.
pub fn only_report(kept: usize, before: usize) -> (r: String)
    requires
        kept <= before,
    ensures
        r@ == "--only: kept "@ + decimal(kept as nat) + " / dropped "@ + decimal(
            (before - kept) as nat,
        ) + " of "@ + decimal(before as nat) + " tasks"@,
{
    let mut s = cat("--only: kept ", &decimal_of_usize(kept));
    s.append(" / dropped ");
    s.append(&decimal_of_usize(before - kept));
    s.append(" of ");
    s.append(&decimal_of_usize(before));
    s.append(" tasks");
    s
}

/// How many trials a task gets: its own number, else that of the run, else that
/// of the suite.
pub open spec fn trials_of(task: Option<usize>, run: Option<usize>, suite: usize) -> usize {
    match task {
        Some(n) => n,
        None => match run {
            Some(n) => n,
            None => suite,
        },
    }
}

/// How many trials a task gets.
pub fn task_trials(task: Option<usize>, run: Option<usize>, suite: usize) -> (r: usize)
    ensures
        r == trials_of(task, run, suite),
{
    match task {
        Some(n) => n,
        None => match run {
            Some(n) => n,
            None => suite,
        },
    }
}

/// Whether a rate is less than 1.0.
pub open spec fn is_partial(rate: Double) -> bool {
    !is_nan(rate) && rank(rate) < 0x3ff0_0000_0000_0000
}

/// Whether only a sample of the tasks runs: the rate is less than 1.0.
pub fn samples(rate: Double) -> (r: bool)
    ensures
        r == is_partial(rate),
{
    let m: u64 = rate.bits % 0x8000_0000_0000_0000;
    if m > 0x7ff0_0000_0000_0000 {
        false
    } else {
        rate.bits >= 0x8000_0000_0000_0000 || m < 0x3ff0_0000_0000_0000
    }
}

/// Whether ordinary cases are sent to human review: a rate is set, and it is
/// more than zero.
pub fn reviews(rate: Option<Double>) -> (r: bool)
    ensures
        r == (rate matches Some(x) && !is_nan(x) && rank(x) > 0),
{
    match rate {
        Some(x) => 0 < x.bits && x.bits <= 0x7ff0_0000_0000_0000,
        None => false,
    }
}

/// How many tasks a sample has: at least one, and no more than there are.
pub open spec fn sample_size(asked: usize, len: nat) -> nat {
    if len == 0 {
        0
    } else if asked == 0 {
        1
    } else if asked > len {
        len
    } else {
        asked as nat
    }
}

/// Whether `r` holds the tasks at the positions `picked`, each once, in the
/// order of their ids.
pub open spec fn picked_by(tasks: Seq<EvalTask>, r: Seq<EvalTask>, picked: Seq<int>) -> bool {
    &&& picked.len() == r.len()
    &&& picked.no_duplicates()
    &&& forall|i: int|
        #![trigger r[i]]
        #![trigger picked[i]]
        0 <= i < r.len() ==> 0 <= picked[i] < tasks.len() && r[i] == tasks[picked[i]]
    &&& forall|i: int, j: int|
        0 <= i < j < r.len() ==> !text_less((#[trigger] r[j]).id@, (#[trigger] r[i]).id@)
}

/// `SliceRandom::shuffle` with the generator of the thread: the same numbers in
/// some order.
#[verifier::external_body]
fn shuffle(indices: &mut Vec<usize>)
    ensures
        final(indices)@.to_multiset() == old(indices)@.to_multiset(),
{
    indices.shuffle(&mut rand::thread_rng());
}

fn is_chosen(chosen: &Vec<usize>, i: usize) -> (r: bool)
    ensures
        r == chosen@.contains(i),
{
    let mut k: usize = 0;
    while k < chosen.len()
        invariant
            k <= chosen@.len(),
            forall|j: int| 0 <= j < k ==> chosen@[j] != i,
        decreases chosen.len() - k,
    {
        if chosen[k] == i {
            return true;
        }
        k += 1;
    }
    false
}

/// The tasks at the chosen positions, in the order of their ids.
pub fn pick_tasks(tasks: Vec<EvalTask>, chosen: &Vec<usize>) -> (r: Vec<EvalTask>)
    requires
        chosen@.no_duplicates(),
        forall|i: int| 0 <= i < chosen@.len() ==> (#[trigger] chosen@[i]) < tasks@.len(),
    ensures
        exists|picked: Seq<int>|
            {
                &&& #[trigger] picked_by(tasks@, r@, picked)
                &&& forall|i: int|
                    0 <= i < tasks@.len() ==> (#[trigger] picked.contains(i) <==> chosen@.contains(
                        i as usize,
                    ))
            },
        r@.len() == chosen@.len(),
{
    let ghost all = tasks@;
    let len = tasks.len();
    let mut out: Vec<EvalTask> = Vec::new();
    let ghost mut picked: Seq<int> = Seq::empty();
    let mut i: usize = 0;
    for t in it: tasks
        invariant
            it.seq() == all,
            all.len() == len,
            i == it.index(),
            picked_by(all, out@, picked),
            forall|k: int|
                #![trigger picked.contains(k)]
                picked.contains(k) <==> (0 <= k < i && chosen@.contains(k as usize)),
    {
        if is_chosen(chosen, i) {
            let mut pos: usize = out.len();
            while pos > 0 && comes_before(&t.id, &out[pos - 1].id)
                invariant
                    pos <= out@.len(),
                    forall|k: int|
                        pos <= k < out@.len() ==> text_less(t.id@, (#[trigger] out@[k]).id@),
                decreases pos,
            {
                pos -= 1;
            }
            let ghost before = out@;
            let ghost old_picked = picked;
            out.insert(pos, t);
            proof {
                picked = old_picked.insert(pos as int, i as int);
                lemma_insert_picked(all, before, old_picked, pos as int, i as int);
                assert forall|k: int|
                    #![trigger picked.contains(k)]
                    picked.contains(k) <==> (0 <= k < i + 1 && chosen@.contains(k as usize)) by {
                    lemma_insert_contains(old_picked, pos as int, i as int, k);
                }
            }
        }
        i += 1;
    }
    proof {
        lemma_same_length(picked, chosen@, all.len() as int);
        assert(picked_by(all, out@, picked));
    }
    out
}

proof fn lemma_insert_contains(s: Seq<int>, p: int, x: int, y: int)
    requires
        0 <= p <= s.len(),
    ensures
        s.insert(p, x).contains(y) <==> (s.contains(y) || x == y),
{
    let t = s.insert(p, x);
    if s.contains(y) {
        let i = choose|i: int| 0 <= i < s.len() && s[i] == y;
        let k = if i < p { i } else { i + 1 };
        assert(t[k] == y);
    }
    if x == y {
        assert(t[p] == y);
    }
    if t.contains(y) && x != y {
        let i = choose|i: int| 0 <= i < t.len() && t[i] == y;
        let k = if i < p { i } else { i - 1 };
        assert(s[k] == y);
    }
}

proof fn lemma_insert_picked(
    all: Seq<EvalTask>,
    out: Seq<EvalTask>,
    picked: Seq<int>,
    pos: int,
    i: int,
)
    requires
        picked_by(all, out, picked),
        0 <= i < all.len(),
        0 <= pos <= out.len(),
        !picked.contains(i),
        forall|k: int| pos <= k < out.len() ==> text_less(all[i].id@, (#[trigger] out[k]).id@),
        pos > 0 ==> !text_less(all[i].id@, out[pos - 1].id@),
    ensures
        picked_by(all, out.insert(pos, all[i]), picked.insert(pos, i)),
{
    let r = out.insert(pos, all[i]);
    let p = picked.insert(pos, i);
    assert forall|a: int, b: int| 0 <= a < p.len() && 0 <= b < p.len() && a != b implies
        #[trigger] p[a] != #[trigger] p[b] by {
        let x = if a < pos { a } else { a - 1 };
        let y = if b < pos { b } else { b - 1 };
        if a == pos {
            assert(picked.contains(picked[y]));
        } else if b == pos {
            assert(picked.contains(picked[x]));
        }
    }
    assert(p.no_duplicates());
    assert forall|k: int|
        #![trigger r[k]]
        #![trigger p[k]]
        0 <= k < r.len() implies 0 <= p[k] < all.len() && r[k] == all[p[k]] by {
        if k < pos {
            assert(r[k] == out[k]);
        } else if k > pos {
            assert(r[k] == out[k - 1]);
        }
    }
    assert forall|a: int, b: int| 0 <= a < b < r.len() implies !text_less(
        (#[trigger] r[b]).id@,
        (#[trigger] r[a]).id@,
    ) by {
        let t = all[i];
        if b < pos {
            assert(r[a] == out[a] && r[b] == out[b]);
        } else if b == pos {
            assert(r[a] == out[a]);
            if a < pos - 1 {
                assert(!text_less(out[pos - 1].id@, out[a].id@));
                lemma_text_order(t.id@, out[a].id@, t.id@);
                lemma_text_order(out[a].id@, out[pos - 1].id@, t.id@);
                lemma_text_order(t.id@, out[a].id@, out[pos - 1].id@);
            }
        } else {
            assert(r[b] == out[b - 1]);
            if a < pos {
                assert(r[a] == out[a]);
            } else if a == pos {
                lemma_text_order(t.id@, out[b - 1].id@, t.id@);
            } else {
                assert(r[a] == out[a - 1]);
            }
        }
    }
    assert(p.len() == r.len());
}

proof fn lemma_same_length(picked: Seq<int>, chosen: Seq<usize>, n: int)
    requires
        picked.no_duplicates(),
        chosen.no_duplicates(),
        forall|i: int| 0 <= i < chosen.len() ==> (#[trigger] chosen[i]) < n,
        0 <= n <= usize::MAX,
        forall|k: int|
            #![trigger picked.contains(k)]
            picked.contains(k) <==> (0 <= k < n && chosen.contains(k as usize)),
    ensures
        picked.len() == chosen.len(),
{
    let numbers = chosen.map_values(|x: usize| x as int);
    assert(numbers.no_duplicates()) by {
        assert forall|i: int, j: int| 0 <= i < numbers.len() && 0 <= j < numbers.len() && i
            != j implies #[trigger] numbers[i] != #[trigger] numbers[j] by {
            assert(chosen[i] != chosen[j]);
        }
    }
    assert(picked.to_set() =~= numbers.to_set()) by {
        assert forall|k: int| #[trigger] picked.to_set().contains(k) <==> numbers.to_set().contains(
            k,
        ) by {
            if picked.contains(k) {
                let j = choose|j: int| 0 <= j < chosen.len() && chosen[j] == k as usize;
                assert(numbers[j] == k);
            }
            if numbers.contains(k) {
                let j = choose|j: int| 0 <= j < numbers.len() && numbers[j] == k;
                assert(chosen[j] == k as usize);
                assert(chosen.contains(k as usize));
                assert(picked.contains(k));
            }
        }
    }
    picked.unique_seq_to_set();
    numbers.unique_seq_to_set();
}

/// A random sample of the tasks, of about the size that is asked for, in the
/// order of their ids.
pub fn sample_tasks(tasks: Vec<EvalTask>, asked: usize) -> (r: Vec<EvalTask>)
    ensures
        r@.len() == sample_size(asked, tasks@.len()),
        exists|picked: Seq<int>| #[trigger] picked_by(tasks@, r@, picked),
{
    let len = tasks.len();
    let mut indices: Vec<usize> = Vec::new();
    let mut i: usize = 0;
    while i < len
        invariant
            i <= len,
            indices@.len() == i,
            forall|k: int| 0 <= k < i ==> #[trigger] indices@[k] == k,
        decreases len - i,
    {
        indices.push(i);
        i += 1;
    }
    let ghost plain = indices@;
    shuffle(&mut indices);
    let ghost mixed = indices@;
    proof {
        plain.lemma_multiset_has_no_duplicates();
        mixed.lemma_multiset_has_no_duplicates_conv();
        plain.to_multiset_ensures();
        mixed.to_multiset_ensures();
        assert forall|k: int| 0 <= k < mixed.len() implies (#[trigger] mixed[k]) < len by {
            assert(mixed.contains(mixed[k]));
            assert(mixed.to_multiset().count(mixed[k]) > 0);
            assert(plain.contains(mixed[k]));
        }
    }
    let n: usize = if len == 0 {
        0
    } else if asked == 0 {
        1
    } else if asked > len {
        len
    } else {
        asked
    };
    indices.truncate(n);
    assert(indices@ == mixed.subrange(0, n as int));
    pick_tasks(tasks, &indices)
}

// ---------------------------------------------------------------------------
// The provider and the judge
// ---------------------------------------------------------------------------

/// The first text that there is.
pub open spec fn first_of(a: Option<Seq<char>>, b: Option<Seq<char>>) -> Option<Seq<char>> {
    match a {
        Some(_) => a,
        None => b,
    }
}

fn or_else(a: Option<String>, b: Option<String>) -> (r: Option<String>)
    ensures
        opt_text(r) == first_of(opt_text(a), opt_text(b)),
{
    match a {
        Some(_) => a,
        None => b,
    }
}

/// The provider that a run asks: the selected one, else the configured one, else
/// Anthropic.
pub open spec fn provider_of(selected: Option<Seq<char>>, config: Option<GatewayConfig>) -> Seq<
    char,
> {
    match selected {
        Some(p) => p,
        None => match config {
            Some(g) => g.model_provider@,
            None => "anthropic"@,
        },
    }
}

/// The provider that a run asks.
pub fn provider_type(selection: &ProviderSelection, config: &Option<GatewayConfig>) -> (r: String)
    ensures
        r@ == provider_of(opt_text(selection.provider), *config),
{
    match &selection.provider {
        Some(p) => p.clone(),
        None => match config {
            Some(g) => g.model_provider.clone(),
            None => "anthropic".to_string(),
        },
    }
}

/// What a run asks its provider with.
#[derive(Debug)]
pub struct ResolvedProvider {
    pub provider_type: String,
    pub model: Option<String>,
    pub api_key: Option<String>,
    pub base_url: Option<String>,
}

/// What the environment says of providers.
#[derive(Debug, Clone)]
pub struct ProviderEnvironment {
    /// `ANTHROPIC_API_KEY`.
    pub anthropic_key: Option<String>,
    /// `OPENAI_API_KEY`.
    pub openai_key: Option<String>,
    /// `SYSCITY_BASE_URL`.
    pub base_url: Option<String>,
}

/// A text unless it is empty.
pub open spec fn unless_empty(s: Option<Seq<char>>) -> Option<Seq<char>> {
    match s {
        Some(t) if t.len() > 0 => s,
        _ => None,
    }
}

/// The base URL of a configured provider.
pub open spec fn configured_url(config: Option<GatewayConfig>, provider: Seq<char>) -> Option<
    Seq<char>,
> {
    match config {
        Some(g) => if g.providers@.dom().contains(provider) {
            opt_text(g.providers@[provider].base_url)
        } else {
            None
        },
        None => None,
    }
}

/// Whether `r` is what a run asks its provider with.
pub open spec fn is_resolved(
    selection: ProviderSelection,
    config: Option<GatewayConfig>,
    configured_key: Option<Seq<char>>,
    env: ProviderEnvironment,
    r: ResolvedProvider,
) -> bool {
    let provider = provider_of(opt_text(selection.provider), config);
    &&& r.provider_type@ == provider
    &&& opt_text(r.model) == first_of(
        opt_text(selection.model),
        match config {
            Some(g) => Some(g.model@),
            None => None,
        },
    )
    &&& opt_text(r.api_key) == first_of(
        opt_text(selection.api_key),
        first_of(
            unless_empty(configured_key),
            first_of(opt_text(env.anthropic_key), opt_text(env.openai_key)),
        ),
    )
    &&& opt_text(r.base_url) == first_of(
        opt_text(selection.base_url),
        first_of(configured_url(config, provider), opt_text(env.base_url)),
    )
}

/// What a run asks its provider with, given the key of the configured provider:
/// the selection comes first, then the configuration, then the environment.
pub fn resolve_run(
    selection: &ProviderSelection,
    config: &Option<GatewayConfig>,
    configured_key: Option<String>,
    env: &ProviderEnvironment,
) -> (r: ResolvedProvider)
    ensures
        is_resolved(*selection, *config, opt_text(configured_key), *env, r),
{
    let provider_type = provider_type(selection, config);
    let configured_model = match config {
        Some(g) => Some(g.model.clone()),
        None => None,
    };
    let key = match configured_key {
        Some(k) => {
            if k.as_str().is_empty() {
                None
            } else {
                Some(k)
            }
        },
        None => None,
    };
    let url = match config {
        Some(g) => match g.providers.get(&provider_type) {
            Some(p) => p.base_url.clone(),
            None => None,
        },
        None => None,
    };
    ResolvedProvider {
        provider_type,
        model: or_else(selection.model.clone(), configured_model),
        api_key: or_else(
            selection.api_key.clone(),
            or_else(key, or_else(env.anthropic_key.clone(), env.openai_key.clone())),
        ),
        base_url: or_else(selection.base_url.clone(), or_else(url, env.base_url.clone())),
    }
}

/// The error for a provider that cannot be made.
pub fn provider_failed(provider_type: &str, error: &str) -> (r: SyscityError)
    ensures
        r matches SyscityError::Validation(m) && m@ == "Failed to create provider '"@
            + provider_type@ + "': "@ + error@
            + "\nSet ANTHROPIC_API_KEY or OPENAI_API_KEY env var, or provide --api-key"@,
{
    let mut s = cat("Failed to create provider '", provider_type);
    s.append("': ");
    s.append(error);
    s.append("\nSet ANTHROPIC_API_KEY or OPENAI_API_KEY env var, or provide --api-key");
    SyscityError::Validation(s)
}

/// The error for a judge whose provider cannot be made.
pub fn judge_failed(provider_type: &str, error: &str) -> (r: SyscityError)
    ensures
        r matches SyscityError::Validation(m) && m@ == "Failed to create judge provider '"@
            + provider_type@ + "': "@ + error@,
{
    let mut s = cat("Failed to create judge provider '", provider_type);
    s.append("': ");
    s.append(error);
    SyscityError::Validation(s)
}

/// A model, or the word for none.
pub open spec fn model_label(model: Option<Seq<char>>) -> Seq<char> {
    match model {
        Some(m) => m,
        None => "default"@,
    }
}

/// Who runs the tasks, for the ledger.
pub fn executor_label(run: &ResolvedProvider) -> (r: String)
    ensures
        r@ == run.provider_type@ + "/"@ + model_label(opt_text(run.model)),
{
    let mut s = cat(&run.provider_type, "/");
    match &run.model {
        Some(m) => s.append(m),
        None => s.append("default"),
    }
    s
}

/// Whether some task is judged.
pub open spec fn is_judged(tasks: Seq<EvalTask>) -> bool {
    exists|i: int| 0 <= i < tasks.len() && (#[trigger] tasks[i]).criteria is Some
}

/// Whether some task is judged.
pub fn has_criteria(tasks: &Vec<EvalTask>) -> (r: bool)
    ensures
        r == is_judged(tasks@),
{
    let mut i: usize = 0;
    while i < tasks.len()
        invariant
            i <= tasks@.len(),
            forall|j: int| 0 <= j < i ==> (#[trigger] tasks@[j]).criteria is None,
        decreases tasks.len() - i,
    {
        if tasks[i].criteria.is_some() {
            return true;
        }
        i += 1;
    }
    false
}

/// Who judges, for the ledger.
pub open spec fn judge_name(judge: ProviderSelection, judged: bool) -> Seq<char> {
    if !judged {
        "none"@
    } else {
        match opt_text(judge.model) {
            Some(m) => match opt_text(judge.provider) {
                Some(p) => p + "/"@ + m,
                None => m,
            },
            None => "self"@,
        }
    }
}

/// Who judges, for the ledger.
pub fn judge_label(judge: &ProviderSelection, judged: bool) -> (r: String)
    ensures
        r@ == judge_name(*judge, judged),
{
    if !judged {
        return "none".to_string();
    }
    match &judge.model {
        Some(m) => match &judge.provider {
            Some(p) => {
                let mut s = cat(p, "/");
                s.append(m);
                s
            },
            None => m.clone(),
        },
        None => "self".to_string(),
    }
}

/// How the judge is made.
#[derive(Debug)]
pub enum JudgePlan {
    /// There is nothing to judge.
    Absent,
    /// The provider of the run judges, with a model.
    Shared { model: Option<String> },
    /// A provider of its own judges.
    Separate(ResolvedProvider),
}

/// Whether the judge has a provider of its own: something but the model is
/// selected for it.
pub open spec fn judge_is_separate(judge: ProviderSelection) -> bool {
    judge.provider is Some || judge.api_key is Some || judge.base_url is Some
}

/// Whether a plan is the one for a judge.
pub open spec fn judges_by(
    judge: ProviderSelection,
    judged: bool,
    run: ResolvedProvider,
    env: ProviderEnvironment,
    plan: JudgePlan,
) -> bool {
    if !judged {
        plan is Absent
    } else if !judge_is_separate(judge) {
        plan matches JudgePlan::Shared { model } && opt_text(model) == first_of(
            opt_text(judge.model),
            opt_text(run.model),
        )
    } else {
        plan matches JudgePlan::Separate(p) && {
            let provider = match opt_text(judge.provider) {
                Some(t) => t,
                None => run.provider_type@,
            };
            let same_provider = provider == run.provider_type@;
            &&& p.provider_type@ == provider
            &&& opt_text(p.model) == opt_text(judge.model)
            &&& opt_text(p.api_key) == first_of(
                opt_text(judge.api_key),
                if same_provider {
                    opt_text(run.api_key)
                } else {
                    first_of(opt_text(env.anthropic_key), opt_text(env.openai_key))
                },
            )
            &&& opt_text(p.base_url) == first_of(
                opt_text(judge.base_url),
                if same_provider {
                    opt_text(run.base_url)
                } else {
                    None
                },
            )
        }
    }
}

/// How the judge of a run is made. A judge of another provider has a key of its
/// own; one of the same provider takes over what is not selected.
pub fn judge_plan(
    judge: &ProviderSelection,
    judged: bool,
    run: &ResolvedProvider,
    env: &ProviderEnvironment,
) -> (r: JudgePlan)
    ensures
        judges_by(*judge, judged, *run, *env, r),
{
    if !judged {
        return JudgePlan::Absent;
    }
    if judge.provider.is_none() && judge.api_key.is_none() && judge.base_url.is_none() {
        return JudgePlan::Shared { model: or_else(judge.model.clone(), run.model.clone()) };
    }
    let provider_type = match &judge.provider {
        Some(p) => p.clone(),
        None => run.provider_type.clone(),
    };
    let same_provider = same(&provider_type, &run.provider_type);
    let fallback_key = if same_provider {
        run.api_key.clone()
    } else {
        or_else(env.anthropic_key.clone(), env.openai_key.clone())
    };
    let fallback_url = if same_provider {
        run.base_url.clone()
    } else {
        None
    };
    JudgePlan::Separate(
        ResolvedProvider {
            provider_type,
            model: judge.model.clone(),
            api_key: or_else(judge.api_key.clone(), fallback_key),
            base_url: or_else(judge.base_url.clone(), fallback_url),
        },
    )
}

/// Root causes are analyzed where badcases are collected and there is a judge.
pub fn analyzes_failures(collect_badcases: bool, plan: &JudgePlan) -> (r: bool)
    ensures
        r == (collect_badcases && !(plan is Absent)),
{
    collect_badcases && match plan {
        JudgePlan::Absent => false,
        _ => true,
    }
}

/// What the prompt of an evaluated agent says of tools.
pub open spec fn tool_guidelines() -> Seq<char> {
    "\n\n## Tool Usage Guidelines\n\nAlways prefer using dedicated tools over shell commands. Each tool is purpose-built for its specific task. When a dedicated tool exists for what the user is asking, use it instead of the shell. For example: use 'pdf' for PDF generation, 'image' for image viewing, 'image_generate' for image creation, 'tts' for text-to-speech, 'stt' for transcription, and 'browser' for web automation."@
}

/// The configuration of an evaluated agent: room for long answers, and the
/// guidelines on tools in the prompt.
pub fn eval_agent_config(base: AgentConfig) -> (r: AgentConfig)
    ensures
        r.system_prompt@ == base.system_prompt@ + tool_guidelines(),
        r == (AgentConfig { max_tokens: 8192, system_prompt: r.system_prompt, ..base }),
{
    let mut prompt = base.system_prompt.clone();
    prompt.append("\n\n## Tool Usage Guidelines\n\nAlways prefer using dedicated tools over shell commands. Each tool is purpose-built for its specific task. When a dedicated tool exists for what the user is asking, use it instead of the shell. For example: use 'pdf' for PDF generation, 'image' for image viewing, 'image_generate' for image creation, 'tts' for text-to-speech, 'stt' for transcription, and 'browser' for web automation.");
    AgentConfig {
        agent_id: base.agent_id,
        temperature: base.temperature,
        max_tokens: 8192,
        max_turns: base.max_turns,
        max_concurrent_tools: base.max_concurrent_tools,
        workspace_only: base.workspace_only,
        system_prompt: prompt,
        max_context_tokens: base.max_context_tokens,
    }
}

/// The configuration of a subagent: the default one with its id, and room for
/// long answers.
pub fn eval_subagent_config(base: AgentConfig, subagent_id: &str) -> (r: AgentConfig)
    ensures
        opt_text(r.agent_id) == Some(subagent_id@),
        r == (AgentConfig { max_tokens: 8192, agent_id: r.agent_id, ..base }),
{
    AgentConfig {
        agent_id: Some(subagent_id.to_string()),
        temperature: base.temperature,
        max_tokens: 8192,
        max_turns: base.max_turns,
        max_concurrent_tools: base.max_concurrent_tools,
        workspace_only: base.workspace_only,
        system_prompt: base.system_prompt,
        max_context_tokens: base.max_context_tokens,
    }
}

/// When a task's trials stop early.
#[derive(Debug, Clone, Copy, PartialEq, Eq, Structural)]
pub struct EarlyStopConfig {
    pub min_trials: usize,
    pub consecutive_passes: usize,
    pub consecutive_failures: usize,
    pub continuous_success_required: bool,
}

/// When the trials of a suite's tasks stop early.
pub fn early_stop(continuous_success_required: bool) -> (r: EarlyStopConfig)
    ensures
        r == (EarlyStopConfig {
            min_trials: 3,
            consecutive_passes: 0,
            consecutive_failures: 0,
            continuous_success_required,
        }),
{
    EarlyStopConfig {
        min_trials: 3,
        consecutive_passes: 0,
        consecutive_failures: 0,
        continuous_success_required,
    }
}

// ---------------------------------------------------------------------------
// What a run adds up to
// ---------------------------------------------------------------------------

/// How a task went.
#[derive(Debug)]
pub enum TaskOutcome {
    /// It ran.
    Ran {
        total_trials: usize,
        passed_trials: usize,
        /// Whether every trial passed.
        all_passed: bool,
        /// The tokens of each trial, where they are known.
        usage: Vec<Option<TokenUsage>>,
    },
    /// It could not run.
    Failed,
}

/// What a run adds up to.
#[derive(Debug)]
pub struct SuiteTotals {
    /// Whether every task could run.
    pub all_ran: bool,
    pub total_trials: usize,
    pub total_passed: usize,
    pub prompt_tokens: u64,
    pub completion_tokens: u64,
    pub trials_with_usage: usize,
    /// The tasks that did not pass every trial.
    pub failed_tasks: Vec<String>,
}

/// The prompt tokens of the trials where they are known.
pub open spec fn prompt_sum(usage: Seq<Option<TokenUsage>>) -> nat
    decreases usage.len(),
{
    if usage.len() == 0 {
        0
    } else {
        prompt_sum(usage.drop_last()) + match usage.last() {
            Some(u) => u.prompt_tokens as nat,
            None => 0nat,
        }
    }
}

/// The completion tokens of the trials where they are known.
pub open spec fn completion_sum(usage: Seq<Option<TokenUsage>>) -> nat
    decreases usage.len(),
{
    if usage.len() == 0 {
        0
    } else {
        completion_sum(usage.drop_last()) + match usage.last() {
            Some(u) => u.completion_tokens as nat,
            None => 0nat,
        }
    }
}

/// How many trials have known tokens.
pub open spec fn known_count(usage: Seq<Option<TokenUsage>>) -> nat
    decreases usage.len(),
{
    if usage.len() == 0 {
        0
    } else {
        known_count(usage.drop_last()) + match usage.last() {
            Some(_) => 1nat,
            None => 0nat,
        }
    }
}

proof fn lemma_sums_grow(usage: Seq<Option<TokenUsage>>, n: int)
    requires
        0 <= n <= usage.len(),
    ensures
        prompt_sum(usage.take(n)) <= prompt_sum(usage),
        completion_sum(usage.take(n)) <= completion_sum(usage),
        known_count(usage.take(n)) <= known_count(usage),
    decreases usage.len(),
{
    if n < usage.len() {
        lemma_sums_grow(usage.drop_last(), n);
        assert(usage.drop_last().take(n) =~= usage.take(n));
    } else {
        assert(usage.take(n) =~= usage);
    }
}

impl SuiteTotals {
    /// Nothing has run yet.
    pub fn new() -> (r: Self)
        ensures
            r.all_ran,
            r.total_trials == 0,
            r.total_passed == 0,
            r.prompt_tokens == 0,
            r.completion_tokens == 0,
            r.trials_with_usage == 0,
            r.failed_tasks@.len() == 0,
    {
        SuiteTotals {
            all_ran: true,
            total_trials: 0,
            total_passed: 0,
            prompt_tokens: 0,
            completion_tokens: 0,
            trials_with_usage: 0,
            failed_tasks: Vec::new(),
        }
    }

    /// Whether the sums still fit after an outcome.
    pub open spec fn has_room(self, outcome: TaskOutcome) -> bool {
        match outcome {
            TaskOutcome::Ran { total_trials, passed_trials, usage, .. } => {
                &&& self.total_trials + total_trials <= usize::MAX
                &&& self.total_passed + passed_trials <= usize::MAX
                &&& self.prompt_tokens + prompt_sum(usage@) <= u64::MAX
                &&& self.completion_tokens + completion_sum(usage@) <= u64::MAX
                &&& self.trials_with_usage + known_count(usage@) <= usize::MAX
            },
            TaskOutcome::Failed => true,
        }
    }

    /// Whether `r` is what it adds up to with one more task.
    pub open spec fn plus(self, task_id: Seq<char>, outcome: TaskOutcome, r: SuiteTotals) -> bool {
        match outcome {
            TaskOutcome::Ran { total_trials, passed_trials, all_passed, usage } => {
                &&& r.all_ran == self.all_ran
                &&& r.total_trials == self.total_trials + total_trials
                &&& r.total_passed == self.total_passed + passed_trials
                &&& r.prompt_tokens == self.prompt_tokens + prompt_sum(usage@)
                &&& r.completion_tokens == self.completion_tokens + completion_sum(usage@)
                &&& r.trials_with_usage == self.trials_with_usage + known_count(usage@)
                &&& texts(r.failed_tasks@) == (if all_passed {
                    texts(self.failed_tasks@)
                } else {
                    texts(self.failed_tasks@).push(task_id)
                })
            },
            TaskOutcome::Failed => {
                &&& !r.all_ran
                &&& r.total_trials == self.total_trials
                &&& r.total_passed == self.total_passed
                &&& r.prompt_tokens == self.prompt_tokens
                &&& r.completion_tokens == self.completion_tokens
                &&& r.trials_with_usage == self.trials_with_usage
                &&& texts(r.failed_tasks@) == texts(self.failed_tasks@).push(task_id)
            },
        }
    }

    /// What it adds up to with one more task.
    pub fn add_outcome(self, task_id: &str, outcome: &TaskOutcome) -> (r: SuiteTotals)
        requires
            self.has_room(*outcome),
        ensures
            self.plus(task_id@, *outcome, r),
    {
        let mut failed_tasks = self.failed_tasks;
        let ghost before = failed_tasks@;
        match outcome {
            TaskOutcome::Ran { total_trials, passed_trials, all_passed, usage } => {
                let mut prompt: u64 = self.prompt_tokens;
                let mut completion: u64 = self.completion_tokens;
                let mut known: usize = self.trials_with_usage;
                let mut i: usize = 0;
                while i < usage.len()
                    invariant
                        i <= usage@.len(),
                        self.prompt_tokens + prompt_sum(usage@) <= u64::MAX,
                        self.completion_tokens + completion_sum(usage@) <= u64::MAX,
                        self.trials_with_usage + known_count(usage@) <= usize::MAX,
                        prompt == self.prompt_tokens + prompt_sum(usage@.take(i as int)),
                        completion == self.completion_tokens + completion_sum(
                            usage@.take(i as int),
                        ),
                        known == self.trials_with_usage + known_count(usage@.take(i as int)),
                    decreases usage.len() - i,
                {
                    proof {
                        lemma_sums_grow(usage@, i + 1);
                        assert(usage@.take(i + 1).drop_last() =~= usage@.take(i as int));
                        assert(usage@.take(i + 1).last() == usage@[i as int]);
                    }
                    if let Some(u) = usage[i] {
                        prompt = prompt + u.prompt_tokens as u64;
                        completion = completion + u.completion_tokens as u64;
                        known = known + 1;
                    }
                    i += 1;
                }
                assert(usage@.take(usage@.len() as int) =~= usage@);
                if !*all_passed {
                    failed_tasks.push(task_id.to_string());
                    assert(texts(failed_tasks@) =~= texts(before).push(task_id@));
                }
                SuiteTotals {
                    all_ran: self.all_ran,
                    total_trials: self.total_trials + *total_trials,
                    total_passed: self.total_passed + *passed_trials,
                    prompt_tokens: prompt,
                    completion_tokens: completion,
                    trials_with_usage: known,
                    failed_tasks,
                }
            },
            TaskOutcome::Failed => {
                failed_tasks.push(task_id.to_string());
                assert(texts(failed_tasks@) =~= texts(before).push(task_id@));
                SuiteTotals {
                    all_ran: false,
                    total_trials: self.total_trials,
                    total_passed: self.total_passed,
                    prompt_tokens: self.prompt_tokens,
                    completion_tokens: self.completion_tokens,
                    trials_with_usage: self.trials_with_usage,
                    failed_tasks,
                }
            },
        }
    }

    /// Whether the run is good: every task ran, and the rate of the
    /// passed trials reaches the one that the suite asks.
    pub fn gate_passed(&self, rate_reached: bool) -> (r: bool)
        ensures
            r == (self.all_ran && rate_reached),
    {
        self.all_ran && rate_reached
    }
}

/// Whether some totals come of a run of tasks: nothing at first, and each
/// outcome in turn.
pub open spec fn adds_up(
    outcomes: Seq<(Seq<char>, TaskOutcome)>,
    totals: Seq<SuiteTotals>,
) -> bool {
    &&& totals.len() == outcomes.len() + 1
    &&& totals[0].all_ran
    &&& totals[0].failed_tasks@.len() == 0
    &&& forall|i: int|
        0 <= i < outcomes.len() ==> (#[trigger] totals[i]).plus(
            outcomes[i].0,
            outcomes[i].1,
            totals[i + 1],
        )
}

proof fn lemma_ran_so_far(
    outcomes: Seq<(Seq<char>, TaskOutcome)>,
    totals: Seq<SuiteTotals>,
    n: int,
)
    requires
        adds_up(outcomes, totals),
        0 <= n <= outcomes.len(),
    ensures
        totals[n].all_ran <==> forall|i: int|
            0 <= i < n ==> !((#[trigger] outcomes[i]).1 is Failed),
    decreases n,
{
    if n > 0 {
        lemma_ran_so_far(outcomes, totals, n - 1);
        assert(totals[n - 1].plus(outcomes[n - 1].0, outcomes[n - 1].1, totals[n]));
    }
}

/// A task that could not run fails the run, whatever the rate of the others.
pub proof fn law_a_task_that_cannot_run_fails_the_run(
    outcomes: Seq<(Seq<char>, TaskOutcome)>,
    totals: Seq<SuiteTotals>,
    rate_reached: bool,
)
    requires
        adds_up(outcomes, totals),
        exists|i: int| 0 <= i < outcomes.len() && (#[trigger] outcomes[i]).1 is Failed,
    ensures
        !(totals.last().all_ran && rate_reached),
{
    lemma_ran_so_far(outcomes, totals, outcomes.len() as int);
}

// ---------------------------------------------------------------------------
// What is said of a run
// ---------------------------------------------------------------------------

/// What is said when a suite starts, given the pass rate as it is printed.
pub fn suite_header(name: &str, tasks: usize, min_pass: &str, trials: usize) -> (r: Vec<String>)
    ensures
        texts(r@) == seq![
            "\n═══ Eval Suite: "@ + name@ + " ═══"@,
            "  Tasks:    "@ + decimal(tasks as nat),
            "  Min pass: "@ + min_pass@,
            "  Trials:   "@ + decimal(trials as nat) + "\n"@,
        ],
{
    let mut title = cat("\n═══ Eval Suite: ", name);
    title.append(" ═══");
    let mut last = cat("  Trials:   ", &decimal_of_usize(trials));
    last.append("\n");
    let r = vec![
        title,
        cat("  Tasks:    ", &decimal_of_usize(tasks)),
        cat("  Min pass: ", min_pass),
        last,
    ];
    assert(texts(r@) =~= seq![
        "\n═══ Eval Suite: "@ + name@ + " ═══"@,
        "  Tasks:    "@ + decimal(tasks as nat),
        "  Min pass: "@ + min_pass@,
        "  Trials:   "@ + decimal(trials as nat) + "\n"@,
    ]);
    r
}

/// A verdict in a word.
pub open spec fn verdict(passed: bool) -> Seq<char> {
    if passed {
        "PASS"@
    } else {
        "FAIL"@
    }
}

fn verdict_text(passed: bool) -> (r: &'static str)
    ensures
        r@ == verdict(passed),
{
    if passed {
        "PASS"
    } else {
        "FAIL"
    }
}

/// What is said of the tokens of a run: nothing where none are known.
pub open spec fn token_lines(t: SuiteTotals) -> Seq<Seq<char>> {
    if t.trials_with_usage == 0 {
        Seq::empty()
    } else {
        let total = (t.prompt_tokens + t.completion_tokens) as nat;
        seq![
            "  Total tokens:      "@ + decimal(total) + " ("@ + decimal(t.prompt_tokens as nat)
                + " prompt + "@ + decimal(t.completion_tokens as nat) + " completion, "@ + decimal(
                t.trials_with_usage as nat,
            ) + " trials)"@,
            "  Avg tokens/trial:  "@ + decimal(total / (t.trials_with_usage as nat)),
        ]
    }
}

/// What is said of a run when it is over, given the rates as they are printed.
pub open spec fn summary(
    name: Seq<char>,
    rate: Seq<char>,
    min_pass: Seq<char>,
    t: SuiteTotals,
    passed: bool,
) -> Seq<Seq<char>> {
    seq![
        "═══ Suite Summary: "@ + name + " ═══"@,
        "  Overall pass rate: "@ + rate,
        "  Total trials:      "@ + decimal(t.total_trials as nat),
        "  Total passed:      "@ + decimal(t.total_passed as nat),
        "  Min required:      "@ + min_pass,
        "  Result:            "@ + verdict(passed),
    ] + token_lines(t)
}

/// What is said of a run when it is over.
pub fn summary_lines(name: &str, rate: &str, min_pass: &str, t: &SuiteTotals, passed: bool) -> (r:
    Vec<String>)
    requires
        t.prompt_tokens + t.completion_tokens <= u64::MAX,
    ensures
        texts(r@) == summary(name@, rate@, min_pass@, *t, passed),
{
    let mut title = cat("═══ Suite Summary: ", name);
    title.append(" ═══");
    let mut lines = vec![
        title,
        cat("  Overall pass rate: ", rate),
        cat("  Total trials:      ", &decimal_of_usize(t.total_trials)),
        cat("  Total passed:      ", &decimal_of_usize(t.total_passed)),
        cat("  Min required:      ", min_pass),
        cat("  Result:            ", verdict_text(passed)),
    ];
    if t.trials_with_usage > 0 {
        let total: u64 = t.prompt_tokens + t.completion_tokens;
        let mut s = cat("  Total tokens:      ", &decimal_of(total));
        s.append(" (");
        s.append(&decimal_of(t.prompt_tokens));
        s.append(" prompt + ");
        s.append(&decimal_of(t.completion_tokens));
        s.append(" completion, ");
        s.append(&decimal_of_usize(t.trials_with_usage));
        s.append(" trials)");
        lines.push(s);
        let average: u64 = total / (t.trials_with_usage as u64);
        lines.push(cat("  Avg tokens/trial:  ", &decimal_of(average)));
    }
    assert(texts(lines@) =~= summary(name@, rate@, min_pass@, *t, passed));
    lines
}

/// What comes of a run: an error where it is not good enough.
pub fn suite_result(gate_passed: bool) -> (r: Result<(), SyscityError>)
    ensures
        r is Ok == gate_passed,
        r matches Err(e) ==> (e matches SyscityError::Validation(m) && m@
            == "Suite did not meet minimum pass rate"@),
{
    if gate_passed {
        Ok(())
    } else {
        Err(SyscityError::Validation("Suite did not meet minimum pass rate".to_string()))
    }
}

/// How a suite was run: on chosen tasks, on a sample (given its percentage, as it
/// is printed), or in full.
pub open spec fn mode_of(only_count: usize, sampled: Option<Seq<char>>) -> Seq<char> {
    if only_count > 0 {
        "only:"@ + decimal(only_count as nat)
    } else {
        match sampled {
            Some(percent) => "sampled:"@ + percent,
            None => "full"@,
        }
    }
}

/// How a suite was run.
pub fn run_mode(only_count: usize, sampled: &Option<String>) -> (r: String)
    ensures
        r@ == mode_of(only_count, opt_text(*sampled)),
{
    if only_count > 0 {
        cat("only:", &decimal_of_usize(only_count))
    } else {
        match sampled {
            Some(percent) => cat("sampled:", percent),
            None => "full".to_string(),
        }
    }
}

/// The mark of a check.
pub open spec fn mark(passed: bool) -> Seq<char> {
    if passed {
        "✓"@
    } else {
        "✗"@
    }
}

/// What is said of a labelled check of a skill.
pub open spec fn check_line(kind: Seq<char>, c: SkillCheck) -> Seq<char> {
    "    "@ + mark(c.passed) + " "@ + kind + " ["@ + c.label@ + "]: "@ + c.detail@
}

/// What is said of the labelled checks of a skill.
pub open spec fn check_lines(kind: Seq<char>, v: Seq<SkillCheck>) -> Seq<Seq<char>> {
    v.map_values(|c: SkillCheck| check_line(kind, c))
}

/// What is said of a check of the resilience of a skill.
pub open spec fn resilience_line(c: SkillCheck) -> Seq<char> {
    "    "@ + mark(c.passed) + " Resilience: "@ + c.detail@
}

/// What is said of the skills in a trial: nothing where nothing was checked.
pub open spec fn skill_report(trial_index: usize, s: SkillResults) -> Seq<Seq<char>> {
    if s.trigger_results@.len() == 0 && s.execution_results@.len() == 0
        && s.quality_results@.len() == 0 && s.resilience_results@.len() == 0 {
        Seq::empty()
    } else {
        seq!["  Trial #"@ + decimal(trial_index as nat) + " skill details:"@] + check_lines(
            "Trigger"@,
            s.trigger_results@,
        ) + check_lines("Execution"@, s.execution_results@) + check_lines(
            "Quality"@,
            s.quality_results@,
        ) + s.resilience_results@.map_values(|c: SkillCheck| resilience_line(c))
    }
}

fn mark_text(passed: bool) -> (r: &'static str)
    ensures
        r@ == mark(passed),
{
    if passed {
        "✓"
    } else {
        "✗"
    }
}

fn push_checks(lines: &mut Vec<String>, kind: &str, v: &Vec<SkillCheck>)
    ensures
        texts(final(lines)@) == texts(old(lines)@) + check_lines(kind@, v@),
{
    let ghost base = texts(lines@);
    let ghost all = check_lines(kind@, v@);
    let mut i: usize = 0;
    assert(base + all.take(0) =~= base);
    while i < v.len()
        invariant
            i <= v@.len(),
            all == check_lines(kind@, v@),
            texts(lines@) == base + all.take(i as int),
        decreases v.len() - i,
    {
        let ghost before = lines@;
        let mut s = cat("    ", mark_text(v[i].passed));
        s.append(" ");
        s.append(kind);
        s.append(" [");
        s.append(&v[i].label);
        s.append("]: ");
        s.append(&v[i].detail);
        lines.push(s);
        proof {
            assert(texts(lines@) =~= texts(before).push(all[i as int]));
            assert(base + all.take(i + 1) =~= (base + all.take(i as int)).push(all[i as int]));
        }
        i += 1;
    }
    assert(all.take(v@.len() as int) =~= all);
}

/// What is said of the skills in a trial.
pub fn skill_details(trial_index: usize, results: &SkillResults) -> (r: Vec<String>)
    ensures
        texts(r@) == skill_report(trial_index, *results),
{
    let mut lines: Vec<String> = Vec::new();
    if results.trigger_results.is_empty() && results.execution_results.is_empty()
        && results.quality_results.is_empty() && results.resilience_results.is_empty() {
        assert(texts(lines@) =~= Seq::empty());
        return lines;
    }
    let mut title = cat("  Trial #", &decimal_of_usize(trial_index));
    title.append(" skill details:");
    lines.push(title);
    assert(texts(lines@) =~= seq![
        "  Trial #"@ + decimal(trial_index as nat) + " skill details:"@,
    ]);
    push_checks(&mut lines, "Trigger", &results.trigger_results);
    push_checks(&mut lines, "Execution", &results.execution_results);
    push_checks(&mut lines, "Quality", &results.quality_results);
    let ghost base = texts(lines@);
    let v = &results.resilience_results;
    let ghost all = v@.map_values(|c: SkillCheck| resilience_line(c));
    let mut i: usize = 0;
    assert(base + all.take(0) =~= base);
    while i < v.len()
        invariant
            i <= v@.len(),
            all == v@.map_values(|c: SkillCheck| resilience_line(c)),
            texts(lines@) == base + all.take(i as int),
        decreases v.len() - i,
    {
        let ghost before = lines@;
        let mut s = cat("    ", mark_text(v[i].passed));
        s.append(" Resilience: ");
        s.append(&v[i].detail);
        lines.push(s);
        proof {
            assert(texts(lines@) =~= texts(before).push(all[i as int]));
            assert(base + all.take(i + 1) =~= (base + all.take(i as int)).push(all[i as int]));
        }
        i += 1;
    }
    assert(all.take(v@.len() as int) =~= all);
    lines
}

// ---------------------------------------------------------------------------
// The ledger
// ---------------------------------------------------------------------------

/// The head of the ledger, written once.
pub open spec fn ledger_head() -> Seq<char> {
    "# Eval Ledger\n\nDurable record of eval suite runs — one row per completed\n`syscity eval run` (appended automatically, best-effort).\n\n| Date | Commit | Suite | Executor | Judge | Mode | Passed | Rate | Gate | Failed tasks |\n|------|--------|-------|----------|-------|------|--------|------|------|--------------|\n"@
}

/// The head of the ledger, written once.
pub fn ledger_header() -> (r: String)
    ensures
        r@ == ledger_head(),
{
    "# Eval Ledger\n\nDurable record of eval suite runs — one row per completed\n`syscity eval run` (appended automatically, best-effort).\n\n| Date | Commit | Suite | Executor | Judge | Mode | Passed | Rate | Gate | Failed tasks |\n|------|--------|-------|----------|-------|------|--------|------|------|--------------|\n".to_string()
}

/// The failed tasks, as the ledger names them: at most 160 characters.
pub open spec fn failed_cell(failed: Seq<Seq<char>>) -> Seq<char> {
    let all = joined(failed, ", "@);
    if failed.len() == 0 {
        "-"@
    } else if all.len() > 160 {
        all.take(159) + "…"@
    } else {
        all
    }
}

/// The ledger never names the failed tasks in more than 160 characters.
pub proof fn law_failed_tasks_fit_in_their_cell(failed: Seq<Seq<char>>)
    ensures
        failed_cell(failed).len() <= 160,
{
    reveal_strlit("-");
    reveal_strlit("…");
}

fn failed_text(failed: &Vec<String>) -> (r: String)
    ensures
        r@ == failed_cell(texts(failed@)),
{
    if failed.is_empty() {
        return "-".to_string();
    }
    let all = join(failed.as_slice(), ", ");
    let cs = chars_of(&all);
    if cs.len() > 160 {
        let head = string_of_range(&cs, 0, 159);
        assert(head@ =~= all@.take(159));
        cat(&head, "…")
    } else {
        all
    }
}

/// A run, as the ledger has it.
#[derive(Debug)]
pub struct LedgerEntry {
    /// When the run ended, as it is printed.
    pub date: String,
    /// The commit that was run; empty where there is none.
    pub commit: String,
    pub suite: String,
    pub executor: String,
    pub judge: String,
    pub mode: String,
    pub passed: usize,
    pub total: usize,
    /// The rate of passed trials, as it is printed.
    pub rate: String,
    pub gate_passed: bool,
    pub failed_tasks: Vec<String>,
}

/// The commit, as the ledger names it.
pub open spec fn commit_cell(output: Seq<char>) -> Seq<char> {
    if trimmed(output).len() == 0 {
        "-"@
    } else {
        trimmed(output)
    }
}

/// The row of a run.
pub open spec fn row(e: LedgerEntry) -> Seq<char> {
    "| "@ + e.date@ + " | "@ + commit_cell(e.commit@) + " | "@ + e.suite@ + " | "@ + e.executor@
        + " | "@ + e.judge@ + " | "@ + e.mode@ + " | "@ + decimal(e.passed as nat) + "/"@ + decimal(
        e.total as nat,
    ) + " | "@ + e.rate@ + " | "@ + verdict(e.gate_passed) + " | "@ + failed_cell(
        texts(e.failed_tasks@),
    ) + " |\n"@
}

/// The row of a run, for the end of the ledger.
pub fn append_eval_ledger(e: &LedgerEntry) -> (r: String)
    ensures
        r@ == row(*e),
{
    let mut s = cat("| ", &e.date);
    s.append(" | ");
    let commit = trim(&e.commit);
    if commit.as_str().is_empty() {
        s.append("-");
    } else {
        s.append(&commit);
    }
    s.append(" | ");
    s.append(&e.suite);
    s.append(" | ");
    s.append(&e.executor);
    s.append(" | ");
    s.append(&e.judge);
    s.append(" | ");
    s.append(&e.mode);
    s.append(" | ");
    s.append(&decimal_of_usize(e.passed));
    s.append("/");
    s.append(&decimal_of_usize(e.total));
    s.append(" | ");
    s.append(&e.rate);
    s.append(" | ");
    s.append(verdict_text(e.gate_passed));
    s.append(" | ");
    s.append(&failed_text(&e.failed_tasks));
    s.append(" |\n");
    s
}

/// What a run adds to the ledger: its row, after the head where there is no ledger
/// yet.
pub open spec fn added(exists: bool, e: LedgerEntry) -> Seq<char> {
    if exists {
        row(e)
    } else {
        ledger_head() + row(e)
    }
}

/// What a run adds to the ledger.
pub fn ledger_addition(exists: bool, e: &LedgerEntry) -> (r: String)
    ensures
        r@ == added(exists, *e),
{
    if exists {
        append_eval_ledger(e)
    } else {
        cat(&ledger_header(), &append_eval_ledger(e))
    }
}

/// The ledger after the first `n` runs; there is none before the first.
pub open spec fn ledger(runs: Seq<LedgerEntry>, n: int) -> Seq<char>
    decreases n,
{
    if n <= 0 || n > runs.len() {
        Seq::empty()
    } else {
        ledger(runs, n - 1) + added(n > 1, runs[n - 1])
    }
}

/// The rows of the first `n` runs.
pub open spec fn rows(runs: Seq<LedgerEntry>, n: int) -> Seq<char>
    decreases n,
{
    if n <= 0 || n > runs.len() {
        Seq::empty()
    } else {
        rows(runs, n - 1) + row(runs[n - 1])
    }
}

/// The ledger is its head, once, and one row for each run, in their order.
pub proof fn law_the_ledger_has_one_head(runs: Seq<LedgerEntry>, n: int)
    requires
        0 < n <= runs.len(),
    ensures
        ledger(runs, n) == ledger_head() + rows(runs, n),
    decreases n,
{
    if n > 1 {
        law_the_ledger_has_one_head(runs, n - 1);
        assert(ledger(runs, n) =~= ledger_head() + rows(runs, n));
    } else {
        assert(ledger(runs, 0) =~= Seq::empty());
        assert(rows(runs, 0) =~= Seq::empty());
        assert(ledger(runs, 1) =~= ledger_head() + rows(runs, 1));
    }
}

// ---------------------------------------------------------------------------
// The governed suite, the configuration and the tools
// ---------------------------------------------------------------------------

/// The governance of a run: that of the configuration, where there is one.
pub fn governance_of(config: &Option<BadcaseGovernanceConfig>) -> (r: BadcaseGovernance)
    ensures
        r.max_age_days == 90,
        r.max_duplicate_inputs == 3,
        r.downgrade_threshold == 10,
        r.downgraded_pass_rate.bits == 0x3fe6_6666_6666_6666,
        match *config {
            Some(c) => r.difficulty_weights@ == c.difficulty_weights@ && r.default_weight
                == c.default_weight,
            None => r.difficulty_weights@ == Map::<Seq<char>, Double>::empty()
                && r.default_weight.bits == 0x3ff0_0000_0000_0000,
        },
{
    match config {
        Some(c) => BadcaseGovernance::from_config(c),
        None => BadcaseGovernance::default(),
    }
}

/// What is said where there are no governed tasks, given the directory as it is
/// printed.
pub fn no_governed_tasks(shown_dir: &str) -> (r: Vec<String>)
    ensures
        texts(r@) == seq![
            "No governed badcase tasks in "@ + shown_dir@,
            "  Collect badcases first: `syscity eval run <suite> --full --collect-badcases`"@,
        ],
{
    let r = vec![
        cat("No governed badcase tasks in ", shown_dir),
        "  Collect badcases first: `syscity eval run <suite> --full --collect-badcases`".to_string(),
    ];
    assert(texts(r@) =~= seq![
        "No governed badcase tasks in "@ + shown_dir@,
        "  Collect badcases first: `syscity eval run <suite> --full --collect-badcases`"@,
    ]);
    r
}

/// Where the rules of a governance come from.
pub open spec fn governance_source(configured: bool) -> Seq<char> {
    if configured {
        "config"@
    } else {
        "defaults"@
    }
}

/// What is said when the governed suite starts, given the rates as they are
/// printed.
pub open spec fn governed_head(
    tasks: usize,
    min_pass: Seq<char>,
    configured: bool,
    g: BadcaseGovernance,
    downgraded: Seq<char>,
) -> Seq<Seq<char>> {
    seq![
        "\n═══ Badcase Regression Suite ═══"@,
        "  Tasks:      "@ + decimal(tasks as nat),
        "  Min pass:   "@ + min_pass,
        "  Governance: "@ + governance_source(configured) + " (max_age="@ + decimal(
            g.max_age_days as nat,
        ) + "d, dup_limit="@ + decimal(g.max_duplicate_inputs as nat) + ", downgrade>="@ + decimal(
            g.downgrade_threshold as nat,
        ) + " -> "@ + downgraded + ")"@,
    ]
}

/// What is said when the governed suite starts.
pub fn governed_header(
    tasks: usize,
    min_pass: &str,
    configured: bool,
    g: &BadcaseGovernance,
    downgraded: &str,
) -> (r: Vec<String>)
    ensures
        texts(r@) == governed_head(tasks, min_pass@, configured, *g, downgraded@),
{
    let source = if configured {
        "config"
    } else {
        "defaults"
    };
    let mut s = cat("  Governance: ", source);
    s.append(" (max_age=");
    s.append(&decimal_of(g.max_age_days));
    s.append("d, dup_limit=");
    s.append(&decimal_of_usize(g.max_duplicate_inputs));
    s.append(", downgrade>=");
    s.append(&decimal_of_usize(g.downgrade_threshold));
    s.append(" -> ");
    s.append(downgraded);
    s.append(")");
    let r = vec![
        "\n═══ Badcase Regression Suite ═══".to_string(),
        cat("  Tasks:      ", &decimal_of_usize(tasks)),
        cat("  Min pass:   ", min_pass),
        s,
    ];
    assert(texts(r@) =~= governed_head(tasks, min_pass@, configured, *g, downgraded@));
    r
}

/// Where the configuration is looked for, in order, given the user's own place.
pub fn config_candidates(default_config_file: &str) -> (r: Vec<String>)
    ensures
        texts(r@) == seq!["config.toml"@, ".config/config.toml"@, default_config_file@],
{
    let r = vec![
        "config.toml".to_string(),
        ".config/config.toml".to_string(),
        default_config_file.to_string(),
    ];
    assert(texts(r@) =~= seq!["config.toml"@, ".config/config.toml"@, default_config_file@]);
    r
}

/// The tools of an evaluated agent, in the order of their registration.
pub open spec fn eval_tools(with_acp: bool) -> Seq<BuiltinTool> {
    seq![
        BuiltinTool::Shell,
        BuiltinTool::FileRead,
        BuiltinTool::FileWrite,
        BuiltinTool::FileEdit,
        BuiltinTool::Grep,
        BuiltinTool::Glob,
        BuiltinTool::WebSearch,
        BuiltinTool::WebFetch,
        BuiltinTool::Todo,
        BuiltinTool::Time,
    ] + if with_acp {
        seq![BuiltinTool::AcpSpawn, BuiltinTool::AcpSession, BuiltinTool::SessionsSend]
    } else {
        Seq::empty()
    }
}

/// The tools of an evaluated agent; those for other agents where there is a
/// control plane.
pub fn create_eval_tool_registry(with_acp: bool) -> (r: Vec<BuiltinTool>)
    ensures
        r@ == eval_tools(with_acp),
{
    let mut tools: Vec<BuiltinTool> = vec![
        BuiltinTool::Shell,
        BuiltinTool::FileRead,
        BuiltinTool::FileWrite,
        BuiltinTool::FileEdit,
        BuiltinTool::Grep,
        BuiltinTool::Glob,
        BuiltinTool::WebSearch,
        BuiltinTool::WebFetch,
        BuiltinTool::Todo,
        BuiltinTool::Time,
    ];
    if with_acp {
        tools.push(BuiltinTool::AcpSpawn);
        tools.push(BuiltinTool::AcpSession);
        tools.push(BuiltinTool::SessionsSend);
    }
    assert(tools@ =~= eval_tools(with_acp));
    tools
}

/// The search providers that the environment may name, each with the variable
/// of its key.
pub open spec fn search_variables() -> Seq<(Seq<char>, Seq<char>)> {
    seq![
        ("tavily"@, "TAVILY_API_KEY"@),
        ("brave"@, "BRAVE_API_KEY"@),
        ("serper"@, "SERPER_API_KEY"@),
        ("exa"@, "EXA_API_KEY"@),
        ("firecrawl"@, "FIRECRAWL_API_KEY"@),
        ("bocha"@, "BOCHA_API_KEY"@),
        ("serpapi"@, "SERPAPI_API_KEY"@),
    ]
}

/// The pairs of a list of texts.
pub open spec fn text_pairs(v: Seq<(String, String)>) -> Seq<(Seq<char>, Seq<char>)> {
    v.map_values(|p: (String, String)| (p.0@, p.1@))
}

fn variable(name: &str, key: &str) -> (r: (String, String))
    ensures
        r.0@ == name@,
        r.1@ == key@,
{
    (name.to_string(), key.to_string())
}

/// The search providers that the environment may name, each with the variable
/// of its key.
pub fn search_env_keys() -> (r: Vec<(String, String)>)
    ensures
        text_pairs(r@) == search_variables(),
{
    let r = vec![
        variable("tavily", "TAVILY_API_KEY"),
        variable("brave", "BRAVE_API_KEY"),
        variable("serper", "SERPER_API_KEY"),
        variable("exa", "EXA_API_KEY"),
        variable("firecrawl", "FIRECRAWL_API_KEY"),
        variable("bocha", "BOCHA_API_KEY"),
        variable("serpapi", "SERPAPI_API_KEY"),
    ];
    assert(text_pairs(r@) =~= search_variables());
    r
}

/// What is asked for among the first `n` variables, given their values: the
/// provider of each that is not blank, with its key.
pub open spec fn env_questions(values: Seq<Option<String>>, n: int) -> Seq<(Seq<char>, Seq<char>)>
    decreases n,
{
    if n <= 0 || n > values.len() || n > search_variables().len() {
        Seq::empty()
    } else {
        match opt_text(values[n - 1]) {
            Some(k) if trimmed(k).len() > 0 => env_questions(values, n - 1).push(
                (search_variables()[n - 1].0, k),
            ),
            _ => env_questions(values, n - 1),
        }
    }
}

/// Whether the questions are those for the values of the variables.
pub open spec fn env_asked(
    values: Seq<Option<String>>,
    asked: Seq<(String, Option<String>)>,
) -> bool {
    asked.map_values(|q: (String, Option<String>)| (q.0@, opt_text(q.1))) == env_questions(
        values,
        values.len() as int,
    ).map_values(|q: (Seq<char>, Seq<char>)| (q.0, Some(q.1)))
}

/// The search providers of an evaluated agent, each by the name and the key that
/// `resolve` is asked with: those of the configuration, where there is one; else
/// those that the environment has keys for, with DuckDuckGo as the last.
pub fn eval_search_providers<F: Fn(String, Option<String>) -> Option<SearchProvider>>(
    search_cfg: Option<&SearchConfig>,
    values: &Vec<Option<String>>,
    resolve: F,
) -> (r: Vec<SearchProvider>)
    requires
        values@.len() == search_variables().len(),
        forall|name: String, key: Option<String>| call_requires(resolve, (name, key)),
    ensures
        match search_cfg {
            Some(cfg) => exists|
                asked: Seq<(String, Option<String>)>,
                answers: Seq<Option<SearchProvider>>,
            |
                {
                    &&& #[trigger] asked_in_order(*cfg, asked)
                    &&& #[trigger] answered(resolve, asked, answers)
                    &&& r@ == usable_providers(answers)
                },
            None => exists|
                asked: Seq<(String, Option<String>)>,
                answers: Seq<Option<SearchProvider>>,
            |
                {
                    &&& #[trigger] env_asked(values@, asked)
                    &&& #[trigger] answered(resolve, asked, answers)
                    &&& r@ == found(answers).push(SearchProvider::DuckDuckGo)
                },
        },
{
    if let Some(cfg) = search_cfg {
        return cfg.to_providers(resolve);
    }
    let keys = search_env_keys();
    let mut out: Vec<SearchProvider> = Vec::new();
    let ghost mut asked: Seq<(String, Option<String>)> = Seq::empty();
    let ghost mut answers: Seq<Option<SearchProvider>> = Seq::empty();
    let mut i: usize = 0;
    while i < keys.len()
        invariant
            i <= keys@.len(),
            values@.len() == keys@.len(),
            text_pairs(keys@) == search_variables(),
            forall|name: String, key: Option<String>| call_requires(resolve, (name, key)),
            env_questions(values@, i as int).len() == asked.len(),
            forall|k: int|
                0 <= k < asked.len() ==> (#[trigger] asked[k]).0@ == env_questions(
                    values@,
                    i as int,
                )[k].0 && opt_text(asked[k].1) == Some(env_questions(values@, i as int)[k].1),
            answers.len() == asked.len(),
            forall|k: int|
                0 <= k < asked.len() ==> call_ensures(resolve, #[trigger] asked[k], answers[k]),
            out@ == found(answers),
        decreases keys.len() - i,
    {
        let ghost old_questions = env_questions(values@, i as int);
        assert(text_pairs(keys@)[i as int] == (keys@[i as int].0@, keys@[i as int].1@));
        if let Some(k) = &values[i] {
            if !trim(k).as_str().is_empty() {
                let name = keys[i].0.clone();
                let key = Some(k.clone());
                let ghost question = (name, key);
                let ghost before = answers;
                let answer = resolve(name, key);
                proof {
                    asked = asked.push(question);
                    answers = answers.push(answer);
                    assert(answers.drop_last() =~= before);
                    assert(env_questions(values@, i + 1) == old_questions.push(
                        (search_variables()[i as int].0, k@),
                    ));
                }
                if let Some(p) = answer {
                    out.push(p);
                }
            }
        }
        i += 1;
    }
    proof {
        let questions = env_questions(values@, values@.len() as int);
        assert(asked.map_values(|q: (String, Option<String>)| (q.0@, opt_text(q.1)))
            =~= questions.map_values(|q: (Seq<char>, Seq<char>)| (q.0, Some(q.1))));
        assert(env_asked(values@, asked));
        assert(answered(resolve, asked, answers));
    }
    out.push(SearchProvider::DuckDuckGo);
    out
}

// ---------------------------------------------------------------------------
// A run from end to end
// ---------------------------------------------------------------------------

/// What is settled before the first task of a run.
#[derive(Debug)]
pub struct RunPlan {
    pub suite_name: String,
    /// The tasks that are left of the suite.
    pub tasks: Vec<EvalTask>,
    /// How many tasks were asked for by their ids.
    pub only_count: usize,
    pub provider: ResolvedProvider,
    pub judge: JudgePlan,
    pub executor_label: String,
    pub judge_label: String,
    /// Whether the root causes of failures are analyzed.
    pub analyzes_failures: bool,
    /// How many trials a task gets that does not say.
    pub trials: usize,
    pub early_stop: EarlyStopConfig,
    /// The rate at which tasks are sampled, and whether they are.
    pub sampling_rate: Double,
    pub samples: bool,
    pub min_pass_rate: Double,
    /// The rate at which ordinary cases are sent to human review, if they are.
    pub review_rate: Option<Double>,
    /// The tools of the agent.
    pub tools: Vec<BuiltinTool>,
}

/// The rate at which ordinary cases are sent to human review: the configured one
/// where it is more than zero.
pub open spec fn review_rate_of(config: Option<GatewayConfig>) -> Option<Double> {
    match config {
        Some(g) => match g.eval.human_review.sampling_rate {
            Some(x) if !is_nan(x) && rank(x) > 0 => Some(x),
            _ => None,
        },
        None => None,
    }
}

fn review_rate(config: &Option<GatewayConfig>) -> (r: Option<Double>)
    ensures
        r == review_rate_of(*config),
{
    match config {
        Some(g) => {
            let rate = g.eval.human_review.sampling_rate;
            if reviews(rate) {
                rate
            } else {
                None
            }
        },
        None => None,
    }
}

/// The rate at which the tasks of a run are sampled.
pub open spec fn sampling_rate_of(opts: SuiteRunOptions, suite: EvalSuite) -> Double {
    match opts.sampling_rate_override {
        Some(x) => x,
        None => suite.sampling_rate,
    }
}

/// Whether a plan is the one for a run of a suite.
pub open spec fn is_run_plan(
    suite: EvalSuite,
    opts: SuiteRunOptions,
    selection: ProviderSelection,
    config: Option<GatewayConfig>,
    configured_key: Option<Seq<char>>,
    env: ProviderEnvironment,
    plan: RunPlan,
) -> bool {
    let tasks = kept_tasks(suite.tasks@, only_ids(opts.only_tasks));
    &&& plan.suite_name@ == suite.name@
    &&& plan.tasks@ == tasks
    &&& plan.only_count == only_ids(opts.only_tasks).len()
    &&& is_resolved(selection, config, configured_key, env, plan.provider)
    &&& judges_by(opts.judge, is_judged(tasks), plan.provider, env, plan.judge)
    &&& plan.executor_label@ == plan.provider.provider_type@ + "/"@ + model_label(
        opt_text(plan.provider.model),
    )
    &&& plan.judge_label@ == judge_name(opts.judge, is_judged(tasks))
    &&& plan.analyzes_failures == (opts.collect_badcases && is_judged(tasks))
    &&& plan.trials == trials_of(None, opts.trials_override, suite.trials)
    &&& plan.early_stop == (EarlyStopConfig {
        min_trials: 3,
        consecutive_passes: 0,
        consecutive_failures: 0,
        continuous_success_required: suite.continuous_success_required,
    })
    &&& plan.sampling_rate == sampling_rate_of(opts, suite)
    &&& plan.samples == is_partial(sampling_rate_of(opts, suite))
    &&& plan.min_pass_rate == suite.min_pass_rate
    &&& plan.review_rate == review_rate_of(config)
    &&& plan.tools@ == eval_tools(true)
}

/// Settle a run of a suite, given the key of the configured provider and what
/// the environment says. It is refused only where tasks were asked for by ids
/// that none has.
pub fn run_suite(
    suite: EvalSuite,
    opts: &SuiteRunOptions,
    selection: &ProviderSelection,
    config: &Option<GatewayConfig>,
    configured_key: Option<String>,
    env: &ProviderEnvironment,
) -> (r: Result<RunPlan, SyscityError>)
    ensures
        ({
            let ids = only_ids(opts.only_tasks);
            if ids.len() > 0 && kept_tasks(suite.tasks@, ids).len() == 0 {
                r matches Err(SyscityError::Validation(m)) && m@
                    == "--only matched no tasks in the suite"@
            } else {
                r matches Ok(plan) && is_run_plan(
                    suite,
                    *opts,
                    *selection,
                    *config,
                    opt_text(configured_key),
                    *env,
                    plan,
                )
            }
        }),
{
    let only_count = match &opts.only_tasks {
        Some(ids) => ids.len(),
        None => 0,
    };
    let tasks = match keep_only(suite.tasks, &opts.only_tasks) {
        Ok(tasks) => tasks,
        Err(e) => {
            return Err(e);
        },
    };
    let provider = resolve_run(selection, config, configured_key, env);
    let judged = has_criteria(&tasks);
    let judge = judge_plan(&opts.judge, judged, &provider, env);
    let sampling_rate = match opts.sampling_rate_override {
        Some(x) => x,
        None => suite.sampling_rate,
    };
    Ok(
        RunPlan {
            suite_name: suite.name,
            tasks,
            only_count,
            executor_label: executor_label(&provider),
            judge_label: judge_label(&opts.judge, judged),
            analyzes_failures: analyzes_failures(opts.collect_badcases, &judge),
            provider,
            judge,
            trials: task_trials(None, opts.trials_override, suite.trials),
            early_stop: early_stop(suite.continuous_success_required),
            sampling_rate,
            samples: samples(sampling_rate),
            min_pass_rate: suite.min_pass_rate,
            review_rate: review_rate(config),
            tools: create_eval_tool_registry(true),
        },
    )
}

/// What a run came to, with the figures as they are printed.
#[derive(Debug)]
pub struct RunFigures {
    /// Whether the rate of passed trials reaches the one that is asked.
    pub rate_reached: bool,
    pub rate: String,
    pub min_pass: String,
    /// The percentage of the tasks that was sampled.
    pub sampling: String,
    pub date: String,
    pub commit: String,
}

/// The end of a run.
#[derive(Debug)]
pub struct RunEnd {
    /// What is printed.
    pub summary: Vec<String>,
    /// The row for the ledger.
    pub row: LedgerEntry,
    pub result: Result<(), SyscityError>,
}

/// The end of a run: what is said of it, what the ledger gets, and whether it is
/// an error.
pub fn end_suite(plan: &RunPlan, totals: SuiteTotals, figures: RunFigures) -> (r: RunEnd)
    requires
        totals.prompt_tokens + totals.completion_tokens <= u64::MAX,
    ensures
        ({
            let good = totals.all_ran && figures.rate_reached;
            &&& texts(r.summary@) == summary(
                plan.suite_name@,
                figures.rate@,
                figures.min_pass@,
                totals,
                good,
            )
            &&& r.row.date == figures.date
            &&& r.row.commit == figures.commit
            &&& r.row.suite@ == plan.suite_name@
            &&& r.row.executor@ == plan.executor_label@
            &&& r.row.judge@ == plan.judge_label@
            &&& r.row.mode@ == mode_of(
                plan.only_count,
                if plan.samples {
                    Some(figures.sampling@)
                } else {
                    None
                },
            )
            &&& r.row.passed == totals.total_passed
            &&& r.row.total == totals.total_trials
            &&& r.row.rate == figures.rate
            &&& r.row.gate_passed == good
            &&& r.row.failed_tasks == totals.failed_tasks
            &&& r.result is Ok == good
            &&& r.result matches Err(e) ==> (e matches SyscityError::Validation(m) && m@
                == "Suite did not meet minimum pass rate"@)
        }),
{
    let good = totals.gate_passed(figures.rate_reached);
    let summary = summary_lines(
        &plan.suite_name,
        &figures.rate,
        &figures.min_pass,
        &totals,
        good,
    );
    let sampled = if plan.samples {
        Some(figures.sampling)
    } else {
        None
    };
    let row = LedgerEntry {
        date: figures.date,
        commit: figures.commit,
        suite: plan.suite_name.clone(),
        executor: plan.executor_label.clone(),
        judge: plan.judge_label.clone(),
        mode: run_mode(plan.only_count, &sampled),
        passed: totals.total_passed,
        total: totals.total_trials,
        rate: figures.rate,
        gate_passed: good,
        failed_tasks: totals.failed_tasks,
    };
    RunEnd { summary, row, result: suite_result(good) }
}

} // verus!

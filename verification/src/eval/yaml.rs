//! The YAML values that the harness writes.
use vstd::prelude::*;

use super::document::{
    lemma_tree_parts, mapping_of, pair_models, pair_of, texts_of, tree_models, Tree, TreeModel,
};
use super::rca::{BadcaseEntry, RcaModel, RcaResult};
use super::types::Timestamp;
use crate::scalar::Double;
use crate::text::same;

verus! {

/// A YAML value.
#[derive(Debug)]
pub enum YamlValue {
    Bool(bool),
    Int(i32),
    Whole(u64),
    Float(Double),
    Text(String),
    List(Vec<YamlValue>),
    /// A mapping, in the order in which its entries were made.
    Mapping(Vec<(String, YamlValue)>),
    /// The result of a root cause analysis, to be serialized.
    Analysis(RcaResult),
    /// How a badcase was found, to be serialized.
    Entry(BadcaseEntry),
}

/// What a YAML value is.
pub enum YamlModel {
    Bool(bool),
    Int(i32),
    Whole(u64),
    Float(Double),
    Text(Seq<char>),
    List(Seq<YamlModel>),
    Mapping(Seq<(Seq<char>, YamlModel)>),
    Analysis(RcaModel),
    Entry(BadcaseEntry),
}

/// The model of a value.
pub open spec fn yaml_model(y: YamlValue) -> YamlModel
    decreases y,
{
    match y {
        YamlValue::Bool(b) => YamlModel::Bool(b),
        YamlValue::Int(n) => YamlModel::Int(n),
        YamlValue::Whole(n) => YamlModel::Whole(n),
        YamlValue::Float(x) => YamlModel::Float(x),
        YamlValue::Text(s) => YamlModel::Text(s@),
        YamlValue::List(v) => YamlModel::List(
            Seq::new(
                v@.len(),
                |i: int|
                    if 0 <= i < v@.len() {
                        yaml_model(v@[i])
                    } else {
                        YamlModel::Int(0)
                    },
            ),
        ),
        YamlValue::Mapping(v) => YamlModel::Mapping(
            Seq::new(
                v@.len(),
                |i: int|
                    if 0 <= i < v@.len() {
                        (v@[i].0@, yaml_model(v@[i].1))
                    } else {
                        (Seq::empty(), YamlModel::Int(0))
                    },
            ),
        ),
        YamlValue::Analysis(a) => YamlModel::Analysis(a@),
        YamlValue::Entry(e) => YamlModel::Entry(e),
    }
}

impl View for YamlValue {
    type V = YamlModel;

    open spec fn view(&self) -> YamlModel {
        yaml_model(*self)
    }
}

/// The models of the values of a list.
pub open spec fn yaml_models(v: Seq<YamlValue>) -> Seq<YamlModel> {
    v.map_values(|y: YamlValue| y@)
}

/// The models of the entries of a mapping.
pub open spec fn entry_models(v: Seq<(String, YamlValue)>) -> Seq<(Seq<char>, YamlModel)> {
    v.map_values(|p: (String, YamlValue)| (p.0@, p.1@))
}

/// The models of lists and mappings are those of their parts.
pub proof fn lemma_yaml_parts(y: YamlValue)
    ensures
        y matches YamlValue::List(v) ==> y@ == YamlModel::List(yaml_models(v@)),
        y matches YamlValue::Mapping(v) ==> y@ == YamlModel::Mapping(entry_models(v@)),
{
    match y {
        YamlValue::List(v) => {
            assert(y@->List_0 =~= yaml_models(v@));
        },
        YamlValue::Mapping(v) => {
            assert(y@->Mapping_0 =~= entry_models(v@));
        },
        _ => {},
    }
}

/// The first entry at or after `i` under a key.
pub open spec fn entry_from(
    entries: Seq<(Seq<char>, YamlModel)>,
    key: Seq<char>,
    i: int,
) -> Option<YamlModel>
    decreases entries.len() - i,
{
    if i < 0 || i >= entries.len() {
        None
    } else if entries[i].0 == key {
        Some(entries[i].1)
    } else {
        entry_from(entries, key, i + 1)
    }
}

/// What one list of entries after another holds under a key.
pub proof fn lemma_entry_concat(
    a: Seq<(Seq<char>, YamlModel)>,
    b: Seq<(Seq<char>, YamlModel)>,
    key: Seq<char>,
    i: int,
)
    requires
        0 <= i <= a.len(),
    ensures
        entry_from(a + b, key, i) == match entry_from(a, key, i) {
            Some(y) => Some(y),
            None => entry_from(b, key, 0),
        },
    decreases a.len() - i,
{
    if i < a.len() {
        lemma_entry_concat(a, b, key, i + 1);
    } else {
        lemma_entry_after(a, b, key, 0);
    }
}

proof fn lemma_entry_after(
    a: Seq<(Seq<char>, YamlModel)>,
    b: Seq<(Seq<char>, YamlModel)>,
    key: Seq<char>,
    j: int,
)
    requires
        0 <= j <= b.len(),
    ensures
        entry_from(a + b, key, a.len() + j) == entry_from(b, key, j),
    decreases b.len() - j,
{
    if j < b.len() {
        lemma_entry_after(a, b, key, j + 1);
    }
}

/// What a mapping holds under a key.
pub open spec fn entry(y: YamlModel, key: Seq<char>) -> Option<YamlModel> {
    match y {
        YamlModel::Mapping(entries) => entry_from(entries, key, 0),
        _ => None,
    }
}

impl YamlValue {
    /// The entry of a mapping under a key.
    pub fn get(&self, key: &str) -> (r: Option<&YamlValue>)
        ensures
            match r {
                Some(v) => entry(self@, key@) == Some(v@),
                None => entry(self@, key@) is None,
            },
    {
        proof {
            lemma_yaml_parts(*self);
        }
        match self {
            YamlValue::Mapping(entries) => {
                let ghost all = entry_models(entries@);
                let mut i: usize = 0;
                while i < entries.len()
                    invariant
                        i <= entries@.len(),
                        all == entry_models(entries@),
                        self@ == YamlModel::Mapping(all),
                        entry_from(all, key@, 0) == entry_from(all, key@, i as int),
                    decreases entries.len() - i,
                {
                    assert(all[i as int] == (entries@[i as int].0@, entries@[i as int].1@));
                    if same(&entries[i].0, key) {
                        return Some(&entries[i].1);
                    }
                    i += 1;
                }
                None
            },
            _ => None,
        }
    }
}

/// An entry of a mapping under a text.
pub open spec fn tree_entry(key: Seq<char>, value: TreeModel) -> (TreeModel, TreeModel) {
    (TreeModel::Text(key), value)
}

/// A time, as a file holds it.
pub open spec fn time_tree(t: Timestamp) -> TreeModel {
    TreeModel::Mapping(
        seq![
            tree_entry("secs_since_epoch"@, TreeModel::Whole(t.secs)),
            tree_entry("nanos_since_epoch"@, TreeModel::Whole(t.nanos as u64)),
        ],
    )
}

fn tree_of_time(t: Timestamp) -> (r: Tree)
    ensures
        r@ == time_tree(t),
{
    let entries = vec![
        pair_of("secs_since_epoch", Tree::Whole(t.secs)),
        pair_of("nanos_since_epoch", Tree::Whole(t.nanos as u64)),
    ];
    assert(pair_models(entries@) =~= time_tree(t)->Mapping_0);
    mapping_of(entries)
}

/// How a badcase was found, as a file holds it: by the name of the way, which is the
/// tag of what else is told of it.
pub open spec fn entry_tree(e: BadcaseEntry) -> TreeModel {
    match e {
        BadcaseEntry::AutoDetected => TreeModel::Text("AutoDetected"@),
        BadcaseEntry::OnlineRisk => TreeModel::Text("OnlineRisk"@),
        BadcaseEntry::HumanVote => TreeModel::Text("HumanVote"@),
        BadcaseEntry::ManualSubmit { reporter, description } => TreeModel::Tagged(
            "!ManualSubmit"@,
            Box::new(
                TreeModel::Mapping(
                    seq![
                        tree_entry("reporter"@, TreeModel::Text(reporter@)),
                        tree_entry("description"@, TreeModel::Text(description@)),
                    ],
                ),
            ),
        ),
    }
}

fn tree_of_entry(e: &BadcaseEntry) -> (r: Tree)
    ensures
        r@ == entry_tree(*e),
{
    match e {
        BadcaseEntry::AutoDetected => Tree::Text("AutoDetected".to_string()),
        BadcaseEntry::OnlineRisk => Tree::Text("OnlineRisk".to_string()),
        BadcaseEntry::HumanVote => Tree::Text("HumanVote".to_string()),
        BadcaseEntry::ManualSubmit { reporter, description } => {
            let entries = vec![
                pair_of("reporter", Tree::Text(reporter.clone())),
                pair_of("description", Tree::Text(description.clone())),
            ];
            let inner = mapping_of(entries);
            assert(pair_models(entries@) =~= (*entry_tree(*e)->Tagged_1)->Mapping_0);
            Tree::Tagged("!ManualSubmit".to_string(), Box::new(inner))
        },
    }
}

/// The entries of the result of an analysis, as a file holds it.
pub open spec fn analysis_entries(a: RcaModel) -> Seq<(TreeModel, TreeModel)> {
    seq![
        tree_entry("phenomenon"@, TreeModel::Text(a.phenomenon)),
        tree_entry("process_deviation"@, TreeModel::Text(a.process_deviation)),
        tree_entry("responsibility"@, TreeModel::Text(a.responsibility)),
        tree_entry("problem_category"@, TreeModel::Text(a.problem_category)),
        tree_entry("problem_enumeration"@, TreeModel::Text(a.problem_enumeration)),
        tree_entry("responsibility_module"@, TreeModel::Text(a.responsibility_module.named())),
        tree_entry(
            "sub_responsibility"@,
            match a.sub_responsibility {
                Some(m) => TreeModel::Text(m.named()),
                None => TreeModel::Null,
            },
        ),
        tree_entry(
            "evidence_chain"@,
            TreeModel::List(a.evidence_chain.map_values(|s: Seq<char>| TreeModel::Text(s))),
        ),
        tree_entry("fix_suggestion"@, TreeModel::Text(a.fix_suggestion)),
        tree_entry("confidence"@, TreeModel::Float(a.confidence)),
        tree_entry("analysis_duration_ms"@, TreeModel::Whole(a.analysis_duration_ms)),
        tree_entry("entry"@, entry_tree(a.entry)),
        tree_entry("completed_at"@, time_tree(a.completed_at)),
    ]
}

fn tree_of_analysis(a: &RcaResult) -> (r: Tree)
    ensures
        r@ == TreeModel::Mapping(analysis_entries(a@)),
{
    let second = match &a.sub_responsibility {
        Some(m) => Tree::Text(m.name()),
        None => Tree::Null,
    };
    let entries = vec![
        pair_of("phenomenon", Tree::Text(a.phenomenon.clone())),
        pair_of("process_deviation", Tree::Text(a.process_deviation.clone())),
        pair_of("responsibility", Tree::Text(a.responsibility.clone())),
        pair_of("problem_category", Tree::Text(a.problem_category.clone())),
        pair_of("problem_enumeration", Tree::Text(a.problem_enumeration.clone())),
        pair_of("responsibility_module", Tree::Text(a.responsibility_module.name())),
        pair_of("sub_responsibility", second),
        pair_of("evidence_chain", texts_of(&a.evidence_chain)),
        pair_of("fix_suggestion", Tree::Text(a.fix_suggestion.clone())),
        pair_of("confidence", Tree::Float(a.confidence)),
        pair_of("analysis_duration_ms", Tree::Whole(a.analysis_duration_ms)),
        pair_of("entry", tree_of_entry(&a.entry)),
        pair_of("completed_at", tree_of_time(a.completed_at)),
    ];
    assert(pair_models(entries@) =~= analysis_entries(a@));
    mapping_of(entries)
}

/// A value that is written, as a file holds it.
pub open spec fn yaml_tree(y: YamlModel) -> TreeModel
    decreases y,
{
    match y {
        YamlModel::Bool(b) => TreeModel::Bool(b),
        YamlModel::Int(n) => if n < 0 {
            TreeModel::Negative(n as i64)
        } else {
            TreeModel::Whole(n as u64)
        },
        YamlModel::Whole(n) => TreeModel::Whole(n),
        YamlModel::Float(x) => TreeModel::Float(x),
        YamlModel::Text(s) => TreeModel::Text(s),
        YamlModel::List(v) => TreeModel::List(
            Seq::new(
                v.len(),
                |i: int|
                    if 0 <= i < v.len() {
                        yaml_tree(v[i])
                    } else {
                        TreeModel::Null
                    },
            ),
        ),
        YamlModel::Mapping(v) => TreeModel::Mapping(
            Seq::new(
                v.len(),
                |i: int|
                    if 0 <= i < v.len() {
                        (TreeModel::Text(v[i].0), yaml_tree(v[i].1))
                    } else {
                        (TreeModel::Null, TreeModel::Null)
                    },
            ),
        ),
        YamlModel::Analysis(a) => TreeModel::Mapping(analysis_entries(a)),
        YamlModel::Entry(e) => entry_tree(e),
    }
}

impl YamlValue {
    /// The value, as a file holds it.
    pub fn into_tree(self) -> (r: Tree)
        ensures
            r@ == yaml_tree(self@),
        decreases self,
    {
        proof {
            lemma_yaml_parts(self);
        }
        match self {
            YamlValue::Bool(b) => Tree::Bool(b),
            YamlValue::Int(n) => if n < 0 {
                Tree::Negative(n as i64)
            } else {
                Tree::Whole(n as u64)
            },
            YamlValue::Whole(n) => Tree::Whole(n),
            YamlValue::Float(x) => Tree::Float(x),
            YamlValue::Text(s) => Tree::Text(s),
            YamlValue::List(v) => {
                let ghost parts = v@;
                let mut out: Vec<Tree> = Vec::new();
                for x in it: v
                    invariant
                        it.seq() == parts,
                        out@.len() == it.index(),
                        forall|k: int|
                            0 <= k < out@.len() ==> (#[trigger] out@[k])@ == yaml_tree(parts[k]@),
                        decreases_to!(self => parts),
                {
                    assert(decreases_to!(parts => parts[it.index()]));
                    out.push(x.into_tree());
                }
                let r = Tree::List(out);
                proof {
                    lemma_tree_parts(r);
                    assert(tree_models(out@) =~= yaml_tree(self@)->List_0);
                }
                r
            },
            YamlValue::Mapping(v) => {
                let ghost parts = v@;
                let mut out: Vec<(Tree, Tree)> = Vec::new();
                for p in it: v
                    invariant
                        it.seq() == parts,
                        out@.len() == it.index(),
                        forall|k: int|
                            0 <= k < out@.len() ==> (#[trigger] out@[k]).0@ == TreeModel::Text(
                                parts[k].0@,
                            ) && out@[k].1@ == yaml_tree(parts[k].1@),
                        decreases_to!(self => parts),
                {
                    assert(decreases_to!(parts => parts[it.index()]));
                    assert(decreases_to!(parts[it.index()] => parts[it.index()].1));
                    let (key, value) = p;
                    out.push((Tree::Text(key), value.into_tree()));
                }
                let r = Tree::Mapping(out);
                proof {
                    lemma_tree_parts(r);
                    assert(pair_models(out@) =~= yaml_tree(self@)->Mapping_0);
                }
                r
            },
            YamlValue::Analysis(a) => tree_of_analysis(&a),
            YamlValue::Entry(e) => tree_of_entry(&e),
        }
    }
}

} // verus!

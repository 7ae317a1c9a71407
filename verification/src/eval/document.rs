//! YAML documents: the tree that one is read as, and the lists that badcase files
//! hold.
use vstd::prelude::*;
use vstd::string::*;

use serde_norway::Value;

use crate::scalar::Double;
use crate::text::{same, texts};

verus! {

// ---------------------------------------------------------------------------
// Trees
// ---------------------------------------------------------------------------

/// A YAML value with everything below it.
#[derive(Debug)]
pub enum Tree {
    Null,
    Bool(bool),
    /// A whole number that is not negative.
    Whole(u64),
    /// A negative whole number.
    Negative(i64),
    Float(Double),
    Text(String),
    List(Vec<Tree>),
    /// A mapping, in the order of its entries.
    Mapping(Vec<(Tree, Tree)>),
    /// A value with a tag, which begins with an exclamation mark.
    Tagged(String, Box<Tree>),
}

/// What a YAML value is.
pub enum TreeModel {
    Null,
    Bool(bool),
    Whole(u64),
    Negative(i64),
    Float(Double),
    Text(Seq<char>),
    List(Seq<TreeModel>),
    Mapping(Seq<(TreeModel, TreeModel)>),
    Tagged(Seq<char>, Box<TreeModel>),
}

/// The model of a value.
pub open spec fn tree_model(t: Tree) -> TreeModel
    decreases t,
{
    match t {
        Tree::Null => TreeModel::Null,
        Tree::Bool(b) => TreeModel::Bool(b),
        Tree::Whole(n) => TreeModel::Whole(n),
        Tree::Negative(n) => TreeModel::Negative(n),
        Tree::Float(x) => TreeModel::Float(x),
        Tree::Text(s) => TreeModel::Text(s@),
        Tree::List(v) => TreeModel::List(
            Seq::new(
                v@.len(),
                |i: int|
                    if 0 <= i < v@.len() {
                        tree_model(v@[i])
                    } else {
                        TreeModel::Null
                    },
            ),
        ),
        Tree::Mapping(v) => TreeModel::Mapping(
            Seq::new(
                v@.len(),
                |i: int|
                    if 0 <= i < v@.len() {
                        (tree_model(v@[i].0), tree_model(v@[i].1))
                    } else {
                        (TreeModel::Null, TreeModel::Null)
                    },
            ),
        ),
        Tree::Tagged(tag, inner) => TreeModel::Tagged(tag@, Box::new(tree_model(*inner))),
    }
}

impl View for Tree {
    type V = TreeModel;

    open spec fn view(&self) -> TreeModel {
        tree_model(*self)
    }
}

/// The models of the values of a list.
pub open spec fn tree_models(v: Seq<Tree>) -> Seq<TreeModel> {
    v.map_values(|t: Tree| t@)
}

/// The models of the entries of a mapping.
pub open spec fn pair_models(v: Seq<(Tree, Tree)>) -> Seq<(TreeModel, TreeModel)> {
    v.map_values(|p: (Tree, Tree)| (p.0@, p.1@))
}

/// The models of lists and mappings are those of their parts.
pub proof fn lemma_tree_parts(t: Tree)
    ensures
        t matches Tree::List(v) ==> t@ == TreeModel::List(tree_models(v@)),
        t matches Tree::Mapping(v) ==> t@ == TreeModel::Mapping(pair_models(v@)),
{
    match t {
        Tree::List(v) => {
            assert(t@->List_0 =~= tree_models(v@));
        },
        Tree::Mapping(v) => {
            assert(t@->Mapping_0 =~= pair_models(v@));
        },
        _ => {},
    }
}

// ---------------------------------------------------------------------------
// Reading
// ---------------------------------------------------------------------------

/// A value of the YAML library.
#[verifier::external_type_specification]
#[verifier::external_body]
pub struct ExYamlDocument(serde_norway::Value);

/// What a value of the YAML library holds.
pub uninterp spec fn tree_in(v: serde_norway::Value) -> TreeModel;

/// What the YAML library reads a text as; nothing where it refuses the text.
pub uninterp spec fn yaml_read(text: Seq<char>) -> Option<TreeModel>;

/// `serde_norway::from_str` into `serde_norway::Value`: a function of the text, which
/// fails or gives a value that holds what was read.
#[verifier::external_body]
fn parse_document(text: &str) -> (r: Option<Value>)
    ensures
        (match r {
            Some(v) => Some(tree_in(v)),
            None => None,
        }) == yaml_read(text@),
{
    serde_norway::from_str(text).ok()
}

/// A value of the YAML library with the values right below it.
enum Node {
    Null,
    Bool(bool),
    Whole(u64),
    Negative(i64),
    /// A float by its bits.
    Float(u64),
    Text(String),
    List(Vec<Value>),
    Mapping(Vec<(Value, Value)>),
    Tagged(String, Value),
}

/// What a value holds, by what the values right below it hold.
spec fn node_model(n: Node) -> TreeModel {
    match n {
        Node::Null => TreeModel::Null,
        Node::Bool(b) => TreeModel::Bool(b),
        Node::Whole(n) => TreeModel::Whole(n),
        Node::Negative(n) => TreeModel::Negative(n),
        Node::Float(bits) => TreeModel::Float(Double { bits }),
        Node::Text(s) => TreeModel::Text(s@),
        Node::List(v) => TreeModel::List(v@.map_values(|x: Value| tree_in(x))),
        Node::Mapping(v) => TreeModel::Mapping(
            v@.map_values(|p: (Value, Value)| (tree_in(p.0), tree_in(p.1))),
        ),
        Node::Tagged(tag, x) => TreeModel::Tagged(tag@, Box::new(tree_in(x))),
    }
}

/// The variant of a `serde_norway::Value`, with what it holds. A mapping is walked by
/// its `into_iter`, in the order of its entries; a number tells by `as_u64` and
/// `as_i64` whether it is whole; a tag prints with its exclamation mark.
#[verifier::external_body]
fn open_value(v: Value) -> (r: Node)
    ensures
        node_model(r) == tree_in(v),
{
    match v {
        Value::Null => Node::Null,
        Value::Bool(b) => Node::Bool(b),
        Value::Number(n) => match (n.as_u64(), n.as_i64(), n.as_f64()) {
            (Some(u), _, _) => Node::Whole(u),
            (_, Some(i), _) => Node::Negative(i),
            (_, _, x) => Node::Float(x.map_or(0, |x| x.to_bits())),
        },
        Value::String(s) => Node::Text(s),
        Value::Sequence(v) => Node::List(v),
        Value::Mapping(m) => Node::Mapping(m.into_iter().collect()),
        Value::Tagged(t) => Node::Tagged(t.tag.to_string(), t.value),
    }
}

fn tree_of(v: Value) -> (r: Tree)
    ensures
        r@ == tree_in(v),
    decreases tree_in(v),
{
    let ghost whole = tree_in(v);
    match open_value(v) {
        Node::Null => Tree::Null,
        Node::Bool(b) => Tree::Bool(b),
        Node::Whole(n) => Tree::Whole(n),
        Node::Negative(n) => Tree::Negative(n),
        Node::Float(bits) => Tree::Float(Double { bits }),
        Node::Text(s) => Tree::Text(s),
        Node::List(list) => {
            let ghost parts = list@;
            let mut out: Vec<Tree> = Vec::new();
            for x in it: list
                invariant
                    whole == tree_in(v),
                    it.seq() == parts,
                    out@.len() == it.index(),
                    forall|k: int| 0 <= k < out@.len() ==> (#[trigger] out@[k])@ == tree_in(parts[k]),
                    whole == TreeModel::List(parts.map_values(|x: Value| tree_in(x))),
            {
                proof {
                    let all = parts.map_values(|x: Value| tree_in(x));
                    assert(all[it.index()] == tree_in(x));
                    assert(decreases_to!(whole => whole->List_0));
                    assert(decreases_to!(all => all[it.index()]));
                }
                out.push(tree_of(x));
            }
            let r = Tree::List(out);
            proof {
                lemma_tree_parts(r);
                assert(tree_models(out@) =~= parts.map_values(|x: Value| tree_in(x)));
            }
            r
        },
        Node::Mapping(entries) => {
            let ghost parts = entries@;
            let mut out: Vec<(Tree, Tree)> = Vec::new();
            for p in it: entries
                invariant
                    whole == tree_in(v),
                    it.seq() == parts,
                    out@.len() == it.index(),
                    forall|k: int|
                        0 <= k < out@.len() ==> (#[trigger] out@[k]).0@ == tree_in(parts[k].0)
                            && out@[k].1@ == tree_in(parts[k].1),
                    whole == TreeModel::Mapping(
                        parts.map_values(|p: (Value, Value)| (tree_in(p.0), tree_in(p.1))),
                    ),
            {
                proof {
                    let all = parts.map_values(
                        |p: (Value, Value)| (tree_in(p.0), tree_in(p.1)),
                    );
                    assert(all[it.index()] == (tree_in(p.0), tree_in(p.1)));
                    assert(decreases_to!(whole => whole->Mapping_0));
                    assert(decreases_to!(all => all[it.index()]));
                    assert(decreases_to!(all[it.index()] => all[it.index()].0));
                    assert(decreases_to!(all[it.index()] => all[it.index()].1));
                }
                let (key, value) = p;
                out.push((tree_of(key), tree_of(value)));
            }
            let r = Tree::Mapping(out);
            proof {
                lemma_tree_parts(r);
                assert(pair_models(out@) =~= parts.map_values(
                    |p: (Value, Value)| (tree_in(p.0), tree_in(p.1)),
                ));
            }
            r
        },
        Node::Tagged(tag, x) => {
            proof {
                assert(*whole->Tagged_1 == tree_in(x));
                assert(decreases_to!(whole => *whole->Tagged_1));
            }
            Tree::Tagged(tag, Box::new(tree_of(x)))
        },
    }
}

/// What a text is read as, where it is YAML.
pub fn parse_yaml(text: &str) -> (r: Option<Tree>)
    ensures
        (match r {
            Some(t) => Some(t@),
            None => None,
        }) == yaml_read(text@),
{
    match parse_document(text) {
        Some(v) => Some(tree_of(v)),
        None => None,
    }
}

// ---------------------------------------------------------------------------
// The list of a document
// ---------------------------------------------------------------------------

/// A value without its tags.
pub open spec fn untagged(t: TreeModel) -> TreeModel
    decreases t,
{
    match t {
        TreeModel::Tagged(_, inner) => untagged(*inner),
        _ => t,
    }
}

/// The value at or after `i` under a key.
pub open spec fn under_from(entries: Seq<(TreeModel, TreeModel)>, key: Seq<char>, i: int) -> Option<
    TreeModel,
>
    decreases entries.len() - i,
{
    if i < 0 || i >= entries.len() {
        None
    } else if entries[i].0 == TreeModel::Text(key) {
        Some(entries[i].1)
    } else {
        under_from(entries, key, i + 1)
    }
}

/// What a mapping holds under a key.
pub open spec fn under(t: TreeModel, key: Seq<char>) -> Option<TreeModel> {
    match untagged(t) {
        TreeModel::Mapping(entries) => under_from(entries, key, 0),
        _ => None,
    }
}

/// The items of a list; none of anything else.
pub open spec fn items(t: TreeModel) -> Seq<TreeModel> {
    match untagged(t) {
        TreeModel::List(v) => v,
        _ => Seq::empty(),
    }
}

/// The tasks that a document lists; none where there is no document or no list.
pub open spec fn tasks_of(document: Option<TreeModel>) -> Seq<TreeModel> {
    match document {
        Some(t) => match under(t, "tasks"@) {
            Some(list) => items(list),
            None => Seq::empty(),
        },
        None => Seq::empty(),
    }
}

/// The document that lists some tasks.
pub open spec fn listing(tasks: Seq<TreeModel>) -> TreeModel {
    TreeModel::Mapping(seq![(TreeModel::Text("tasks"@), TreeModel::List(tasks))])
}

fn untag(t: Tree) -> (r: Tree)
    ensures
        r@ == untagged(t@),
        !(r is Tagged),
    decreases t,
{
    match t {
        Tree::Tagged(_, inner) => untag(*inner),
        other => other,
    }
}

fn is_key(t: &Tree, key: &str) -> (r: bool)
    ensures
        r == (t@ == TreeModel::Text(key@)),
{
    match t {
        Tree::Text(s) => same(s, key),
        _ => false,
    }
}

/// What a mapping holds under a key.
pub fn take_under(t: Tree, key: &str) -> (r: Option<Tree>)
    ensures
        (match r {
            Some(v) => Some(v@),
            None => None,
        }) == under(t@, key@),
{
    let plain = untag(t);
    proof {
        lemma_tree_parts(plain);
    }
    match plain {
        Tree::Mapping(entries) => {
            let ghost all = pair_models(entries@);
            let ghost parts = entries@;
            for p in it: entries
                invariant
                    it.seq() == parts,
                    all == pair_models(parts),
                    under(t@, key@) == under_from(all, key@, 0),
                    under_from(all, key@, 0) == under_from(all, key@, it.index()),
            {
                assert(all[it.index()] == (p.0@, p.1@));
                let (name, value) = p;
                if is_key(&name, key) {
                    return Some(value);
                }
            }
            None
        },
        _ => None,
    }
}

/// The items of a list; none of anything else.
pub fn take_items(t: Tree) -> (r: Vec<Tree>)
    ensures
        tree_models(r@) == items(t@),
{
    let t = untag(t);
    proof {
        lemma_tree_parts(t);
    }
    match t {
        Tree::List(v) => v,
        _ => {
            let r: Vec<Tree> = Vec::new();
            assert(tree_models(r@) =~= Seq::empty());
            r
        },
    }
}

/// The tasks that a text lists; none where it is no YAML or has no such list.
pub fn entries_of(text: &str) -> (r: Vec<Tree>)
    ensures
        tree_models(r@) == tasks_of(yaml_read(text@)),
{
    let list = match parse_yaml(text) {
        Some(t) => take_under(t, "tasks"),
        None => None,
    };
    match list {
        Some(t) => take_items(t),
        None => {
            let r: Vec<Tree> = Vec::new();
            assert(tree_models(r@) =~= Seq::empty());
            r
        },
    }
}

/// A mapping of some entries.
pub fn mapping_of(entries: Vec<(Tree, Tree)>) -> (r: Tree)
    ensures
        r@ == TreeModel::Mapping(pair_models(entries@)),
{
    let r = Tree::Mapping(entries);
    proof {
        lemma_tree_parts(r);
    }
    r
}

/// A list of texts.
pub fn texts_of(v: &Vec<String>) -> (r: Tree)
    ensures
        r@ == TreeModel::List(texts(v@).map_values(|s: Seq<char>| TreeModel::Text(s))),
{
    let mut out: Vec<Tree> = Vec::new();
    let mut i: usize = 0;
    while i < v.len()
        invariant
            i <= v@.len(),
            out@.len() == i,
            forall|k: int| 0 <= k < i ==> (#[trigger] out@[k])@ == TreeModel::Text(v@[k]@),
        decreases v.len() - i,
    {
        out.push(Tree::Text(v[i].clone()));
        i += 1;
    }
    assert(tree_models(out@) =~= texts(v@).map_values(|s: Seq<char>| TreeModel::Text(s)));
    let r = Tree::List(out);
    proof {
        lemma_tree_parts(r);
    }
    r
}

/// An entry under a text.
pub fn pair_of(key: &str, value: Tree) -> (r: (Tree, Tree))
    ensures
        r.0@ == TreeModel::Text(key@),
        r.1@ == value@,
{
    (Tree::Text(key.to_string()), value)
}

/// The document that lists some tasks.
pub fn document_of(tasks: Vec<Tree>) -> (r: Tree)
    ensures
        r@ == listing(tree_models(tasks@)),
{
    let list = Tree::List(tasks);
    proof {
        lemma_tree_parts(list);
    }
    let entries = vec![pair_of("tasks", list)];
    assert(pair_models(entries@) =~= seq![
        (TreeModel::Text("tasks"@), TreeModel::List(tree_models(tasks@))),
    ]);
    mapping_of(entries)
}

/// A document lists the tasks that it was made of.
pub proof fn law_a_document_lists_its_tasks(tasks: Seq<TreeModel>)
    ensures
        tasks_of(Some(listing(tasks))) == tasks,
{
    reveal_with_fuel(under_from, 2);
    reveal_with_fuel(untagged, 2);
}

} // verus!

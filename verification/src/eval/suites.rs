//! Suites: the task files that make one up, in order and each once, and the
//! suite made of their tasks.
use vstd::prelude::*;
use vstd::string::*;

use super::dataset::{EvalSuite, EvalTask, SuiteCategory};
use super::loader::{
    category_named, filter_passes, optional_agent_type, parse_category, parse_optional_agent_type,
    passes, rate_or, LoadedTaskFile, ResolvedEntry, YamlManifest,
};
use crate::json::Json;
use crate::path::{component_at, components, components_to, path_components};
use crate::scalar::Double;
use crate::text::{comes_before, lemma_filter_has, lemma_text_order, opt_text, pieces, same, text_less, texts};

verus! {

// ---------------------------------------------------------------------------
// The order of the entries
// ---------------------------------------------------------------------------

/// Whether `a` comes before `b` part by part, where both agree before `i`.
pub open spec fn list_less_from(a: Seq<Seq<char>>, b: Seq<Seq<char>>, i: int) -> bool
    decreases b.len() - i,
{
    if i < 0 || i >= b.len() {
        false
    } else if i >= a.len() {
        true
    } else if a[i] != b[i] {
        text_less(a[i], b[i])
    } else {
        list_less_from(a, b, i + 1)
    }
}

/// The lexicographic order of lists of texts.
pub open spec fn list_less(a: Seq<Seq<char>>, b: Seq<Seq<char>>) -> bool {
    list_less_from(a, b, 0)
}

/// Where two lists differ for the first time.
pub open spec fn lists_part_at(a: Seq<Seq<char>>, b: Seq<Seq<char>>, k: int) -> bool {
    &&& 0 <= k
    &&& k < b.len()
    &&& k <= a.len()
    &&& forall|j: int| 0 <= j < k ==> a[j] == b[j]
    &&& k == a.len() || text_less(a[k], b[k])
}

proof fn lemma_list_less_from(a: Seq<Seq<char>>, b: Seq<Seq<char>>, i: int)
    requires
        0 <= i <= a.len(),
        i <= b.len(),
        forall|j: int| 0 <= j < i ==> a[j] == b[j],
    ensures
        list_less_from(a, b, i) <==> exists|k: int| #[trigger] lists_part_at(a, b, k),
    decreases b.len() - i,
{
    if i >= b.len() {
        if exists|k: int| #[trigger] lists_part_at(a, b, k) {
            let k = choose|k: int| #[trigger] lists_part_at(a, b, k);
            assert(a[k] == b[k]);
            lemma_text_order(a[k], b[k], a[k]);
        }
    } else if i >= a.len() {
        assert(lists_part_at(a, b, i));
    } else if a[i] != b[i] {
        if text_less(a[i], b[i]) {
            assert(lists_part_at(a, b, i));
        } else if exists|k: int| #[trigger] lists_part_at(a, b, k) {
            let k = choose|k: int| #[trigger] lists_part_at(a, b, k);
            if k < i {
                assert(a[k] == b[k]);
                lemma_text_order(a[k], b[k], a[k]);
            } else if k > i {
                assert(a[i] == b[i]);
            }
        }
    } else {
        lemma_list_less_from(a, b, i + 1);
    }
}

proof fn lemma_list_total_from(a: Seq<Seq<char>>, b: Seq<Seq<char>>, i: int)
    requires
        0 <= i <= a.len(),
        i <= b.len(),
        forall|j: int| 0 <= j < i ==> a[j] == b[j],
    ensures
        list_less_from(a, b, i) || list_less_from(b, a, i) || a == b,
    decreases a.len() - i,
{
    if i < a.len() && i < b.len() {
        if a[i] == b[i] {
            lemma_list_total_from(a, b, i + 1);
        } else {
            lemma_text_order(a[i], b[i], a[i]);
        }
    } else if i == a.len() && i == b.len() {
        assert(a =~= b);
    }
}

/// The order is irreflexive, transitive and total.
pub proof fn lemma_list_order(a: Seq<Seq<char>>, b: Seq<Seq<char>>, c: Seq<Seq<char>>)
    ensures
        !list_less(a, a),
        list_less(a, b) && list_less(b, c) ==> list_less(a, c),
        list_less(a, b) || list_less(b, a) || a == b,
        !(list_less(a, b) && list_less(b, a)),
{
    lemma_list_less_from(a, a, 0);
    lemma_list_less_from(a, b, 0);
    lemma_list_less_from(b, c, 0);
    lemma_list_less_from(a, c, 0);
    lemma_list_less_from(b, a, 0);
    if list_less(a, a) {
        let k = choose|k: int| #[trigger] lists_part_at(a, a, k);
        lemma_text_order(a[k], a[k], a[k]);
    }
    if list_less(a, b) && list_less(b, c) {
        let i = choose|k: int| #[trigger] lists_part_at(a, b, k);
        let j = choose|k: int| #[trigger] lists_part_at(b, c, k);
        if i < j {
            assert(lists_part_at(a, c, i));
        } else if j < i {
            assert(lists_part_at(a, c, j));
        } else {
            if i < a.len() {
                lemma_text_order(a[i], b[i], c[i]);
            }
            assert(lists_part_at(a, c, i));
        }
    }
    if list_less(a, b) && list_less(b, a) {
        let i = choose|k: int| #[trigger] lists_part_at(a, b, k);
        let j = choose|k: int| #[trigger] lists_part_at(b, a, k);
        if i < j {
            assert(b[i] == a[i]);
            lemma_text_order(a[i], b[i], a[i]);
        } else if j < i {
            assert(a[j] == b[j]);
            lemma_text_order(a[j], b[j], a[j]);
        } else {
            lemma_text_order(a[i], b[i], a[i]);
        }
    }
    lemma_list_total_from(a, b, 0);
}

fn list_before(a: &Vec<String>, b: &Vec<String>) -> (r: bool)
    ensures
        r == list_less(texts(a@), texts(b@)),
{
    let ghost x = texts(a@);
    let ghost y = texts(b@);
    let mut i: usize = 0;
    while i < b.len()
        invariant
            i <= b@.len(),
            x == texts(a@),
            y == texts(b@),
            list_less(x, y) == list_less_from(x, y, i as int),
        decreases b.len() - i,
    {
        if i >= a.len() {
            return true;
        }
        assert(x[i as int] == a@[i as int]@ && y[i as int] == b@[i as int]@);
        if !same(&a[i], &b[i]) {
            return comes_before(&a[i], &b[i]);
        }
        i += 1;
    }
    false
}

/// What the entries are ordered by and told apart by: the components of the
/// path, then the filter, where no filter comes first. The empty part between
/// the two stands before every component.
pub open spec fn entry_key(e: ResolvedEntry) -> Seq<Seq<char>> {
    components(e.task_path@).push(Seq::empty()) + match opt_text(e.task_filter) {
        Some(f) => seq![f],
        None => Seq::empty(),
    }
}

proof fn lemma_components_are_not_empty(ps: Seq<Seq<char>>, root: bool, n: int)
    ensures
        forall|i: int|
            0 <= i < components_to(ps, root, n).len() ==> (#[trigger] components_to(
                ps,
                root,
                n,
            )[i]).len() > 0,
    decreases n,
{
    if 0 < n <= ps.len() {
        lemma_components_are_not_empty(ps, root, n - 1);
        let before = components_to(ps, root, n - 1);
        if let Some(c) = component_at(ps, root, n - 1) {
            assert(c.len() > 0);
            assert forall|i: int| 0 <= i < before.push(c).len() implies (#[trigger] before.push(
                c,
            )[i]).len() > 0 by {
                if i < before.len() {
                    assert(before.push(c)[i] == before[i]);
                }
            }
        }
    }
}

/// Two entries have one key exactly where their paths have the same components
/// and their filters are the same.
pub proof fn law_entry_key(a: ResolvedEntry, b: ResolvedEntry)
    ensures
        entry_key(a) == entry_key(b) <==> (components(a.task_path@) == components(b.task_path@)
            && opt_text(a.task_filter) == opt_text(b.task_filter)),
{
    let x = components(a.task_path@);
    let y = components(b.task_path@);
    lemma_path_components_are_not_empty(a.task_path@);
    lemma_path_components_are_not_empty(b.task_path@);
    let k = entry_key(a);
    let l = entry_key(b);
    if k == l {
        assert(k[x.len() as int] =~= Seq::<char>::empty());
        assert(l[y.len() as int] =~= Seq::<char>::empty());
        if x.len() < y.len() {
            assert(l[x.len() as int] == y[x.len() as int]);
        } else if y.len() < x.len() {
            assert(k[y.len() as int] == x[y.len() as int]);
        }
        assert forall|i: int| 0 <= i < x.len() implies x[i] == y[i] by {
            assert(k[i] == x[i] && l[i] == y[i]);
        }
        assert(x =~= y);
        if opt_text(a.task_filter) is Some {
            assert(k[x.len() as int + 1] == opt_text(a.task_filter)->0);
            assert(l.len() == x.len() + 2);
            assert(l[x.len() as int + 1] == opt_text(b.task_filter)->0);
        } else {
            assert(k.len() == x.len() + 1);
        }
    }
}

proof fn lemma_path_components_are_not_empty(path: Seq<char>)
    ensures
        forall|i: int| 0 <= i < components(path).len() ==> (#[trigger] components(path)[i]).len() > 0,
{
    let ps = pieces(path, '/');
    lemma_components_are_not_empty(ps, path.len() > 0 && path[0] == '/', ps.len() as int);
}

fn key_of(e: &ResolvedEntry) -> (r: Vec<String>)
    ensures
        texts(r@) == entry_key(*e),
{
    let mut r = path_components(&e.task_path);
    let ghost x = texts(r@);
    r.push(String::new());
    proof {
        assert(r@.last()@ =~= Seq::<char>::empty());
        assert(texts(r@) =~= x.push(Seq::empty()));
    }
    if let Some(f) = &e.task_filter {
        let ghost y = texts(r@);
        r.push(f.clone());
        assert(texts(r@) =~= y + seq![f@]);
    } else {
        assert(texts(r@) =~= entry_key(*e));
    }
    r
}

// ---------------------------------------------------------------------------
// Each entry once, in order
// ---------------------------------------------------------------------------

/// Whether `e` is entry `j`, and none before it has its key.
pub open spec fn first_at(all: Seq<ResolvedEntry>, j: int, e: ResolvedEntry) -> bool {
    &&& 0 <= j < all.len()
    &&& all[j] == e
    &&& forall|m: int| 0 <= m < j ==> entry_key(#[trigger] all[m]) != entry_key(e)
}

/// Whether `e` is the first entry of its key.
pub open spec fn is_first(all: Seq<ResolvedEntry>, e: ResolvedEntry) -> bool {
    exists|j: int| #[trigger] first_at(all, j, e)
}

/// Whether the entry at a position has a key.
pub open spec fn has_key_at(s: Seq<ResolvedEntry>, i: int, key: Seq<Seq<char>>) -> bool {
    0 <= i < s.len() && entry_key(s[i]) == key
}

/// Whether some entry has a key.
pub open spec fn has_key(s: Seq<ResolvedEntry>, key: Seq<Seq<char>>) -> bool {
    exists|i: int| #[trigger] has_key_at(s, i, key)
}

/// Whether the keys ascend strictly.
pub open spec fn keys_ascend(s: Seq<ResolvedEntry>) -> bool {
    forall|i: int, j: int|
        0 <= i < j < s.len() ==> list_less(entry_key(#[trigger] s[i]), entry_key(#[trigger] s[j]))
}

/// Whether `r` holds the entries in the order of their keys, of each key the
/// first entry.
pub open spec fn sorted_once(entries: Seq<ResolvedEntry>, r: Seq<ResolvedEntry>) -> bool {
    &&& keys_ascend(r)
    &&& forall|i: int| 0 <= i < r.len() ==> is_first(entries, #[trigger] r[i])
    &&& forall|j: int| 0 <= j < entries.len() ==> has_key(r, entry_key(#[trigger] entries[j]))
}

proof fn lemma_put_in(
    all: Seq<ResolvedEntry>,
    n: int,
    s: Seq<ResolvedEntry>,
    pos: int,
)
    requires
        0 <= n < all.len(),
        0 <= pos <= s.len(),
        sorted_once(all.take(n), s),
        forall|i: int| 0 <= i < pos ==> list_less(entry_key(#[trigger] s[i]), entry_key(all[n])),
        pos < s.len() ==> list_less(entry_key(all[n]), entry_key(s[pos])),
    ensures
        sorted_once(all.take(n + 1), s.insert(pos, all[n])),
{
    let e = all[n];
    let before = all.take(n);
    let after = all.take(n + 1);
    let r = s.insert(pos, e);
    assert forall|i: int, j: int| 0 <= i < j < r.len() implies list_less(
        entry_key(#[trigger] r[i]),
        entry_key(#[trigger] r[j]),
    ) by {
        if j < pos {
            assert(r[i] == s[i] && r[j] == s[j]);
        } else if j == pos {
            assert(r[i] == s[i]);
        } else {
            assert(r[j] == s[j - 1]);
            if i < pos {
                assert(r[i] == s[i]);
            } else if i == pos {
                if j - 1 > pos {
                    lemma_list_order(entry_key(e), entry_key(s[pos]), entry_key(s[j - 1]));
                }
            } else {
                assert(r[i] == s[i - 1]);
            }
        }
    }
    assert forall|m: int| 0 <= m < n implies entry_key(#[trigger] after[m]) != entry_key(e) by {
        assert(after[m] == before[m]);
        assert(has_key(s, entry_key(before[m])));
        let i = choose|i: int| #[trigger] has_key_at(s, i, entry_key(before[m]));
        if entry_key(before[m]) == entry_key(e) {
            lemma_list_order(entry_key(e), entry_key(s[i]), entry_key(e));
            if i > pos {
                assert(list_less(entry_key(s[pos]), entry_key(s[i])));
                lemma_list_order(entry_key(e), entry_key(s[pos]), entry_key(s[i]));
            }
        }
    }
    assert(first_at(after, n, e));
    assert forall|i: int| 0 <= i < r.len() implies is_first(after, #[trigger] r[i]) by {
        if i != pos {
            let o = if i < pos {
                i
            } else {
                i - 1
            };
            assert(r[i] == s[o]);
            lemma_still_first(all, n, s[o]);
        }
    }
    assert forall|j: int| 0 <= j < after.len() implies has_key(r, entry_key(#[trigger] after[j])) by {
        if j == n {
            assert(has_key_at(r, pos, entry_key(e)));
        } else {
            assert(after[j] == before[j]);
            let i = choose|i: int| #[trigger] has_key_at(s, i, entry_key(before[j]));
            assert(has_key_at(s, i, entry_key(before[j])));
            if i < pos {
                assert(r[i] == s[i]);
                assert(has_key_at(r, i, entry_key(before[j])));
            } else {
                assert(r[i + 1] == s[i]);
                assert(has_key_at(r, i + 1, entry_key(before[j])));
            }
        }
    }
}

proof fn lemma_still_first(all: Seq<ResolvedEntry>, n: int, e: ResolvedEntry)
    requires
        0 <= n < all.len(),
        is_first(all.take(n), e),
    ensures
        is_first(all.take(n + 1), e),
{
    let j = choose|j: int| #[trigger] first_at(all.take(n), j, e);
    assert forall|m: int| 0 <= m < j implies entry_key(#[trigger] all.take(n + 1)[m]) != entry_key(
        e,
    ) by {
        assert(all.take(n + 1)[m] == all.take(n)[m]);
    }
    assert(first_at(all.take(n + 1), j, e));
}

proof fn lemma_leave_out(all: Seq<ResolvedEntry>, n: int, s: Seq<ResolvedEntry>, pos: int)
    requires
        0 <= n < all.len(),
        0 <= pos < s.len(),
        sorted_once(all.take(n), s),
        entry_key(s[pos]) == entry_key(all[n]),
    ensures
        sorted_once(all.take(n + 1), s),
{
    let after = all.take(n + 1);
    assert forall|i: int| 0 <= i < s.len() implies is_first(after, #[trigger] s[i]) by {
        lemma_still_first(all, n, s[i]);
    }
    assert forall|j: int| 0 <= j < after.len() implies has_key(s, entry_key(#[trigger] after[j])) by {
        if j == n {
            assert(has_key_at(s, pos, entry_key(after[j])));
        } else {
            assert(after[j] == all.take(n)[j]);
        }
    }
}

/// The entries in the order of their paths and filters, each once.
pub fn sort_entries(entries: Vec<ResolvedEntry>) -> (r: Vec<ResolvedEntry>)
    ensures
        sorted_once(entries@, r@),
{
    let ghost all = entries@;
    let mut out: Vec<ResolvedEntry> = Vec::new();
    for e in it: entries
        invariant
            it.seq() == all,
            sorted_once(all.take(it.index()), out@),
    {
        let ghost n = it.index();
        let key = key_of(&e);
        let mut pos: usize = 0;
        let mut known = false;
        while pos < out.len()
            invariant_except_break
                pos <= out@.len(),
                texts(key@) == entry_key(e),
                !known,
                forall|i: int|
                    0 <= i < pos ==> list_less(entry_key(#[trigger] out@[i]), entry_key(e)),
            ensures
                pos <= out@.len(),
                forall|i: int|
                    0 <= i < pos ==> list_less(entry_key(#[trigger] out@[i]), entry_key(e)),
                known ==> pos < out@.len() && entry_key(out@[pos as int]) == entry_key(e),
                !known ==> (pos < out@.len() ==> list_less(
                    entry_key(e),
                    entry_key(out@[pos as int]),
                )),
            decreases out.len() - pos,
        {
            let other = key_of(&out[pos]);
            if !list_before(&other, &key) {
                known = !list_before(&key, &other);
                proof {
                    lemma_list_order(entry_key(e), entry_key(out@[pos as int]), entry_key(e));
                }
                break;
            }
            pos += 1;
        }
        if known {
            proof {
                lemma_leave_out(all, n, out@, pos as int);
            }
        } else {
            proof {
                lemma_put_in(all, n, out@, pos as int);
            }
            out.insert(pos, e);
        }
    }
    assert(all.take(all.len() as int) =~= all);
    out
}

/// The keys of some entries.
pub open spec fn keys_of(s: Seq<ResolvedEntry>) -> Seq<Seq<Seq<char>>> {
    s.map_values(|e: ResolvedEntry| entry_key(e))
}

proof fn lemma_same_keys_up_to(a: Seq<ResolvedEntry>, b: Seq<ResolvedEntry>, i: int)
    requires
        keys_ascend(a),
        keys_ascend(b),
        forall|k: Seq<Seq<char>>| #[trigger] has_key(a, k) ==> has_key(b, k),
        forall|k: Seq<Seq<char>>| #[trigger] has_key(b, k) ==> has_key(a, k),
        0 <= i < a.len(),
        i < b.len(),
        forall|j: int| 0 <= j < i ==> entry_key(#[trigger] a[j]) == entry_key(b[j]),
    ensures
        entry_key(a[i]) == entry_key(b[i]),
{
    let x = entry_key(a[i]);
    let y = entry_key(b[i]);
    assert(has_key_at(a, i, x));
    assert(has_key(a, x));
    let p = choose|p: int| #[trigger] has_key_at(b, p, x);
    assert(has_key_at(b, i, y));
    assert(has_key(b, y));
    let q = choose|q: int| #[trigger] has_key_at(a, q, y);
    lemma_list_order(x, y, x);
    if x != y {
        if p < i {
            assert(entry_key(a[p]) == x);
            assert(list_less(entry_key(a[p]), entry_key(a[i])));
            lemma_list_order(x, x, x);
        } else if q < i {
            assert(entry_key(b[q]) == entry_key(a[q]));
            assert(list_less(entry_key(b[q]), entry_key(b[i])));
            lemma_list_order(y, y, y);
        } else {
            if p > i {
                assert(list_less(entry_key(b[i]), entry_key(b[p])));
            }
            if q > i {
                assert(list_less(entry_key(a[i]), entry_key(a[q])));
            }
        }
    }
}

proof fn lemma_same_keys_prefix(a: Seq<ResolvedEntry>, b: Seq<ResolvedEntry>, n: int)
    requires
        keys_ascend(a),
        keys_ascend(b),
        forall|k: Seq<Seq<char>>| #[trigger] has_key(a, k) ==> has_key(b, k),
        forall|k: Seq<Seq<char>>| #[trigger] has_key(b, k) ==> has_key(a, k),
        0 <= n <= a.len(),
        n <= b.len(),
    ensures
        forall|j: int| 0 <= j < n ==> entry_key(#[trigger] a[j]) == entry_key(b[j]),
    decreases n,
{
    if n > 0 {
        lemma_same_keys_prefix(a, b, n - 1);
        lemma_same_keys_up_to(a, b, n - 1);
    }
}

proof fn lemma_not_more_keys(a: Seq<ResolvedEntry>, b: Seq<ResolvedEntry>)
    requires
        keys_ascend(a),
        keys_ascend(b),
        forall|k: Seq<Seq<char>>| #[trigger] has_key(a, k) ==> has_key(b, k),
        forall|k: Seq<Seq<char>>| #[trigger] has_key(b, k) ==> has_key(a, k),
    ensures
        a.len() <= b.len(),
{
    if a.len() > b.len() {
        let n = b.len() as int;
        lemma_same_keys_prefix(a, b, n);
        let x = entry_key(a[n]);
        assert(has_key_at(a, n, x));
        assert(has_key(a, x));
        let p = choose|p: int| #[trigger] has_key_at(b, p, x);
        assert(entry_key(a[p]) == x);
        assert(list_less(entry_key(a[p]), entry_key(a[n])));
        lemma_list_order(x, x, x);
    }
}

/// Which files are loaded, with which filters and in which order, does not
/// depend on the order in which a manifest names them, nor on how often.
pub proof fn law_loading_ignores_order(
    a: Seq<ResolvedEntry>,
    b: Seq<ResolvedEntry>,
    ra: Seq<ResolvedEntry>,
    rb: Seq<ResolvedEntry>,
)
    requires
        forall|k: Seq<Seq<char>>| #[trigger] has_key(a, k) <==> has_key(b, k),
        sorted_once(a, ra),
        sorted_once(b, rb),
    ensures
        keys_of(ra) == keys_of(rb),
{
    lemma_same_key_set(a, ra);
    lemma_same_key_set(b, rb);
    assert forall|k: Seq<Seq<char>>| #[trigger] has_key(ra, k) implies has_key(rb, k) by {
        assert(has_key(a, k));
        assert(has_key(b, k));
    }
    assert forall|k: Seq<Seq<char>>| #[trigger] has_key(rb, k) implies has_key(ra, k) by {
        assert(has_key(b, k));
        assert(has_key(a, k));
    }
    lemma_not_more_keys(ra, rb);
    lemma_not_more_keys(rb, ra);
    lemma_same_keys_prefix(ra, rb, ra.len() as int);
    assert(keys_of(ra) =~= keys_of(rb));
}

proof fn lemma_same_key_set(a: Seq<ResolvedEntry>, r: Seq<ResolvedEntry>)
    requires
        sorted_once(a, r),
    ensures
        forall|k: Seq<Seq<char>>| #[trigger] has_key(r, k) ==> has_key(a, k),
        forall|k: Seq<Seq<char>>| #[trigger] has_key(a, k) ==> has_key(r, k),
{
    assert forall|k: Seq<Seq<char>>| #[trigger] has_key(r, k) implies has_key(a, k) by {
        let i = choose|i: int| #[trigger] has_key_at(r, i, k);
        assert(is_first(a, r[i]));
        let j = choose|j: int| #[trigger] first_at(a, j, r[i]);
        assert(has_key_at(a, j, k));
    }
    assert forall|k: Seq<Seq<char>>| #[trigger] has_key(a, k) implies has_key(r, k) by {
        let j = choose|j: int| #[trigger] has_key_at(a, j, k);
        assert(has_key(r, entry_key(a[j])));
    }
}

// ---------------------------------------------------------------------------
// The suite
// ---------------------------------------------------------------------------

/// The tasks of a file that pass the filter of its entry.
pub fn matching_tasks(tasks: Vec<EvalTask>, filter: &Option<String>) -> (r: Vec<EvalTask>)
    ensures
        r@ == tasks@.filter(|t: EvalTask| passes(opt_text(*filter), t.id@)),
{
    let ghost all = tasks@;
    let ghost p = |t: EvalTask| passes(opt_text(*filter), t.id@);
    let mut out: Vec<EvalTask> = Vec::new();
    proof {
        assert(all.take(0) =~= Seq::empty());
        assert(out@ =~= all.take(0).filter(p)) by {
            reveal(Seq::filter);
        }
    }
    for t in it: tasks
        invariant
            it.seq() == all,
            p == (|t: EvalTask| passes(opt_text(*filter), t.id@)),
            out@ == all.take(it.index()).filter(p),
    {
        proof {
            let i = it.index();
            assert(all.take(i + 1).drop_last() =~= all.take(i));
            assert(all.take(i + 1).last() == t);
            reveal(Seq::filter);
        }
        if filter_passes(filter, &t.id) {
            out.push(t);
        }
    }
    assert(all.take(all.len() as int) =~= all);
    out
}

/// The tasks that the first `n` entries ask for, each of its file.
pub open spec fn gathered(entries: Seq<ResolvedEntry>, files: Seq<LoadedTaskFile>, n: int) -> Seq<
    EvalTask,
>
    decreases n,
{
    if n <= 0 || n > entries.len() || n > files.len() {
        Seq::empty()
    } else {
        gathered(entries, files, n - 1) + files[n - 1].tasks@.filter(
            |t: EvalTask| passes(opt_text(entries[n - 1].task_filter), t.id@),
        )
    }
}

/// The designs of skill evaluations that the first `n` files hold.
pub open spec fn gathered_designs(files: Seq<LoadedTaskFile>, n: int) -> Seq<Json>
    decreases n,
{
    if n <= 0 || n > files.len() {
        Seq::empty()
    } else {
        match files[n - 1].skill_design {
            Some(d) => gathered_designs(files, n - 1).push(d),
            None => gathered_designs(files, n - 1),
        }
    }
}

/// The tasks and the designs of a suite, given its entries in order and each once,
/// and for each the file that it names.
pub fn gather_tasks(entries: Vec<ResolvedEntry>, files: Vec<LoadedTaskFile>) -> (r: (
    Vec<EvalTask>,
    Vec<Json>,
))
    requires
        entries@.len() == files@.len(),
    ensures
        r.0@ == gathered(entries@, files@, entries@.len() as int),
        r.1@ == gathered_designs(files@, files@.len() as int),
{
    let ghost all = files@;
    let mut tasks: Vec<EvalTask> = Vec::new();
    let mut designs: Vec<Json> = Vec::new();
    let mut i: usize = 0;
    for f in it: files
        invariant
            it.seq() == all,
            entries@.len() == all.len(),
            i == it.index(),
            tasks@ == gathered(entries@, all, it.index()),
            designs@ == gathered_designs(all, it.index()),
    {
        let mut more = matching_tasks(f.tasks, &entries[i].task_filter);
        tasks.append(&mut more);
        if let Some(d) = f.skill_design {
            designs.push(d);
        }
        assert(i < entries.len());
        i += 1;
    }
    (tasks, designs)
}

proof fn lemma_gathered_by_keys(
    ra: Seq<ResolvedEntry>,
    rb: Seq<ResolvedEntry>,
    files: Seq<LoadedTaskFile>,
    n: int,
)
    requires
        keys_of(ra) == keys_of(rb),
        0 <= n <= ra.len(),
        ra.len() == files.len(),
    ensures
        gathered(ra, files, n) == gathered(rb, files, n),
    decreases n,
{
    assert(keys_of(ra).len() == ra.len() && keys_of(rb).len() == rb.len());
    if n > 0 {
        lemma_gathered_by_keys(ra, rb, files, n - 1);
        assert(keys_of(ra)[n - 1] == entry_key(ra[n - 1]));
        assert(keys_of(rb)[n - 1] == entry_key(rb[n - 1]));
        law_entry_key(ra[n - 1], rb[n - 1]);
    }
}

/// Whether a gathered task is one that an entry asks for of its file.
pub open spec fn is_gathered(
    entries: Seq<ResolvedEntry>,
    files: Seq<LoadedTaskFile>,
    i: int,
    t: EvalTask,
) -> bool {
    &&& 0 <= i < entries.len()
    &&& i < files.len()
    &&& files[i].tasks@.contains(t)
    &&& passes(opt_text(entries[i].task_filter), t.id@)
}

proof fn lemma_gathered_has(
    entries: Seq<ResolvedEntry>,
    files: Seq<LoadedTaskFile>,
    n: int,
    i: int,
    t: EvalTask,
)
    requires
        0 <= i < n <= entries.len(),
        entries.len() == files.len(),
        is_gathered(entries, files, i, t),
    ensures
        gathered(entries, files, n).contains(t),
    decreases n,
{
    let p = |t: EvalTask| passes(opt_text(entries[n - 1].task_filter), t.id@);
    let before = gathered(entries, files, n - 1);
    let last = files[n - 1].tasks@.filter(p);
    let all = gathered(entries, files, n);
    if i == n - 1 {
        lemma_filter_has(files[n - 1].tasks@, p, t);
        let k = choose|k: int| 0 <= k < last.len() && last[k] == t;
        assert(all[before.len() + k] == t);
    } else {
        lemma_gathered_has(entries, files, n - 1, i, t);
        let k = choose|k: int| 0 <= k < before.len() && before[k] == t;
        assert(all[k] == t);
    }
}

/// No entry of a manifest is lost: whatever stands twice or in another order, every
/// task of the file of an entry that passes its filter is a task of the suite, given
/// that the files are those of the entries in order and each once.
pub proof fn law_no_entry_is_lost(
    all: Seq<ResolvedEntry>,
    entries: Seq<ResolvedEntry>,
    files: Seq<LoadedTaskFile>,
    j: int,
    i: int,
    t: EvalTask,
)
    requires
        sorted_once(all, entries),
        files.len() == entries.len(),
        0 <= j < all.len(),
        has_key_at(entries, i, entry_key(all[j])),
        files[i].tasks@.contains(t),
        passes(opt_text(all[j].task_filter), t.id@),
    ensures
        has_key(entries, entry_key(all[j])),
        gathered(entries, files, entries.len() as int).contains(t),
{
    law_entry_key(entries[i], all[j]);
    lemma_gathered_has(entries, files, entries.len() as int, i, t);
}

/// The tasks of a suite depend neither on the order in which a manifest names the
/// files nor on how often, as long as the files hold the same.
pub proof fn law_gathering_ignores_order(
    a: Seq<ResolvedEntry>,
    b: Seq<ResolvedEntry>,
    ra: Seq<ResolvedEntry>,
    rb: Seq<ResolvedEntry>,
    files: Seq<LoadedTaskFile>,
)
    requires
        forall|k: Seq<Seq<char>>| #[trigger] has_key(a, k) <==> has_key(b, k),
        sorted_once(a, ra),
        sorted_once(b, rb),
        files.len() == ra.len(),
    ensures
        ra.len() == rb.len(),
        gathered(ra, files, ra.len() as int) == gathered(rb, files, rb.len() as int),
{
    law_loading_ignores_order(a, b, ra, rb);
    assert(keys_of(ra).len() == keys_of(rb).len());
    lemma_gathered_by_keys(ra, rb, files, ra.len() as int);
}

/// The name under which a suite is listed: that of its manifest, or of the file.
pub fn display_name(name: Option<String>, stem: &str) -> (r: String)
    ensures
        r@ == match opt_text(name) {
            Some(n) => n,
            None => stem@,
        },
{
    match name {
        Some(n) => n,
        None => stem.to_string(),
    }
}

/// The id of a suite: the name that was asked for, else the name of the manifest
/// where it has one, else that of its file.
pub open spec fn suite_identity(
    asked: Seq<char>,
    name: Option<Seq<char>>,
    stem: Option<Seq<char>>,
) -> Seq<char> {
    if asked.len() > 0 {
        asked
    } else {
        match name {
            Some(n) if n.len() > 0 => n,
            _ => match stem {
                Some(s) => s,
                None => "unknown"@,
            },
        }
    }
}

fn suite_id(asked: &str, name: &Option<String>, stem: Option<String>) -> (r: String)
    ensures
        r@ == suite_identity(asked@, opt_text(*name), opt_text(stem)),
{
    if !asked.is_empty() {
        return asked.to_string();
    }
    if let Some(n) = name {
        if !n.as_str().is_empty() {
            return n.clone();
        }
    }
    match stem {
        Some(s) => s,
        None => "unknown".to_string(),
    }
}

/// The category of a suite: that of the category that was asked for, which is
/// capability where it says nothing.
pub open spec fn category_of(manifest: YamlManifest, asked: Seq<char>) -> SuiteCategory {
    if manifest.categories@.dom().contains(asked) {
        match opt_text(manifest.categories@[asked].category) {
            Some(label) => category_named(label),
            None => category_named("capability"@),
        }
    } else {
        SuiteCategory::Capability
    }
}

fn suite_category(manifest: &YamlManifest, asked: &str) -> (r: SuiteCategory)
    ensures
        r == category_of(*manifest, asked@),
{
    match manifest.categories.get(asked) {
        Some(cat) => match &cat.category {
            Some(label) => parse_category(label),
            None => parse_category("capability"),
        },
        None => SuiteCategory::Capability,
    }
}

/// The suite of a manifest, given the name that was asked for, the name of the
/// manifest's file, and what its task files hold.
pub fn load_suite(
    manifest: YamlManifest,
    suite_name: &str,
    stem: Option<String>,
    tasks: Vec<EvalTask>,
    skill_designs: Vec<Json>,
) -> (r: EvalSuite)
    ensures
        r.id@ == suite_identity(suite_name@, opt_text(manifest.name), opt_text(stem)),
        r.name@ == match opt_text(manifest.name) {
            Some(n) => n,
            None => Seq::empty(),
        },
        r.category == category_of(manifest, suite_name@),
        r.tasks == tasks,
        r.min_pass_rate == manifest.rate(),
        r.trials == manifest.trial_count(),
        r.continuous_success_required == (manifest.continuous_success_required == Some(true)),
        r.sampling_rate == rate_or(
            manifest.sampling_rate,
            (Double { bits: 0x3ff0_0000_0000_0000 }),
        ),
        r.tags@.len() == 0,
        r.agent_type == optional_agent_type(manifest.agent_type),
        r.skill_designs == skill_designs,
{
    let id = suite_id(suite_name, &manifest.name, stem);
    let category = suite_category(&manifest, suite_name);
    let agent_type = parse_optional_agent_type(&manifest.agent_type);
    let min_pass_rate = manifest.default_min_pass_rate();
    let trials = manifest.default_trials();
    let name = match manifest.name {
        Some(n) => n,
        None => String::new(),
    };
    let continuous_success_required = match manifest.continuous_success_required {
        Some(b) => b,
        None => false,
    };
    let sampling_rate = match manifest.sampling_rate {
        Some(x) => x,
        None => Double { bits: 0x3ff0_0000_0000_0000 },
    };
    assert(name@ =~= match opt_text(manifest.name) {
        Some(n) => n,
        None => Seq::empty(),
    });
    EvalSuite {
        id,
        name,
        category,
        tasks,
        min_pass_rate,
        trials,
        continuous_success_required,
        sampling_rate,
        tags: Vec::new(),
        agent_type,
        skill_designs,
    }
}

} // verus!

//! Laws of the operations on paths.
use vstd::prelude::*;

use crate::laws::text::law_pieces_make_up_the_text;
use crate::path::{
    component_at, component_below, components, components_to, directory, directory_name, file_stem,
    join_path, last_dot, last_name, lies_below, stem,
};
use crate::text::{char_from, lemma_char_from, lemma_pieces_split, pieces};

verus! {

/// Whether a text is a plain name: not empty, without a slash, and neither of the
/// names of the place itself and its parent.
pub open spec fn is_plain_name(name: Seq<char>) -> bool {
    name.len() > 0 && !name.contains('/') && name != "."@ && name != ".."@
}

/// A path that begins at the root stands for itself; any other is taken below the
/// directory, with one slash between.
pub proof fn law_a_path_is_taken_below(dir: &str, rel: &str, r: String)
    requires
        call_ensures(join_path, (dir, rel), r),
    ensures
        rel@.len() > 0 && rel@[0] == '/' ==> r@ == rel@,
        (rel@.len() == 0 || rel@[0] != '/') && dir@.len() > 0 && dir@.last() != '/' ==> r@ == dir@
            + seq!['/'] + rel@,
        (rel@.len() == 0 || rel@[0] != '/') && (dir@.len() == 0 || dir@.last() == '/') ==> r@
            == dir@ + rel@,
{
    reveal_strlit("/");
    assert("/"@ =~= seq!['/']);
}

proof fn lemma_pieces_push(a: Seq<char>, c: char, b: Seq<char>)
    requires
        !b.contains(c),
    ensures
        pieces(a + seq![c] + b, c) == pieces(a, c).push(b),
    decreases a.len(),
{
    let s = a + seq![c] + b;
    lemma_pieces_split(s, c, 0);
    lemma_pieces_split(a, c, 0);
    lemma_pieces_split(b, c, 0);
    lemma_char_from(s, c, 0);
    lemma_char_from(a, c, 0);
    lemma_char_from(b, c, 0);
    assert(s[a.len() as int] == c);
    let i = char_from(s, c, 0)->0;
    match char_from(a, c, 0) {
        Some(k) => {
            assert(s[k] == c);
            assert forall|j: int| 0 <= j < k implies s[j] != c by {
                assert(s[j] == a[j]);
            }
            assert(i == k);
            let less = a.skip(k + 1);
            lemma_pieces_push(less, c, b);
            assert(s.skip(k + 1) =~= less + seq![c] + b);
            assert(s.take(k) =~= a.take(k));
            assert(pieces(s, c) =~= pieces(a, c).push(b));
        },
        None => {
            assert forall|j: int| 0 <= j < a.len() implies s[j] != c by {
                assert(s[j] == a[j]);
            }
            assert(i == a.len());
            assert(s.take(i) =~= a);
            assert(s.skip(i + 1) =~= b);
            if char_from(b, c, 0) is Some {
                assert(b[char_from(b, c, 0)->0] == c);
                assert(b.contains(c));
            }
            assert(pieces(b, c) == seq![b]);
            assert(pieces(s, c) =~= pieces(a, c).push(b));
        },
    }
}

proof fn lemma_components_to(
    ps: Seq<Seq<char>>,
    name: Seq<char>,
    root: bool,
    n: int,
)
    requires
        0 <= n <= ps.len(),
    ensures
        components_to(ps.push(name), root, n) == components_to(ps, root, n),
    decreases n,
{
    if n > 0 {
        lemma_components_to(ps, name, root, n - 1);
        assert(ps.push(name)[n - 1] == ps[n - 1]);
        assert(component_at(ps.push(name), root, n - 1) == component_at(ps, root, n - 1));
    }
}

proof fn lemma_one_more(dir: Seq<char>, name: Seq<char>)
    requires
        dir.len() > 0,
        is_plain_name(name),
    ensures
        components(dir + seq!['/'] + name) == components(dir).push(seq!['3'] + name),
{
    let path = dir + seq!['/'] + name;
    let root = dir[0] == '/';
    assert(path[0] == dir[0]);
    lemma_pieces_push(dir, '/', name);
    let ps = pieces(dir, '/');
    law_pieces_make_up_the_text(dir, '/');
    let n = ps.len() as int;
    lemma_components_to(ps, name, root, n);
    assert(ps.push(name)[n] == name);
    assert(component_at(ps.push(name), root, n) == Some(seq!['3'] + name));
    assert(components(path) =~= components(dir).push(seq!['3'] + name));
}

/// A file is found again below the directory that it was put in: its own name is
/// the last one, what remains is the directory, and the path lies below it.
pub proof fn law_a_file_lies_in_its_directory(
    dir: &str,
    path: &str,
    name: Seq<char>,
    below: bool,
    first: Option<String>,
    base: Option<String>,
)
    requires
        dir@.len() > 0,
        is_plain_name(name),
        path@ == dir@ + seq!['/'] + name,
        call_ensures(lies_below, (path, dir), below),
        call_ensures(component_below, (path, dir), first),
        call_ensures(file_stem, (path,), base),
    ensures
        below,
        first is Some && first->0@ == name,
        base is Some && base->0@ == stem(name),
        last_name(components(path@)) == Some(name),
        directory(components(path@)) == components(dir@),
{
    lemma_one_more(dir@, name);
    let c = seq!['3'] + name;
    assert(c[0] == '3');
    assert(c.skip(1) =~= name);
    assert(components(path@).last() == c);
    assert(components(path@).drop_last() =~= components(dir@));
    assert(components(dir@) =~= components(path@).take(components(dir@).len() as int));
    assert(components(path@)[components(dir@).len() as int] == c);
    if c == seq!['0'] {
        assert(c[0] == '0');
    }
}

/// Of a file further down it is the first name below the directory that counts,
/// and the directory that it lies in is the one just above it.
pub proof fn law_the_first_name_below_counts(
    dir: &str,
    path: &str,
    name: Seq<char>,
    file: Seq<char>,
    first: Option<String>,
    parent: Option<String>,
)
    requires
        dir@.len() > 0,
        is_plain_name(name),
        is_plain_name(file),
        path@ == dir@ + seq!['/'] + name + seq!['/'] + file,
        call_ensures(component_below, (path, dir), first),
        call_ensures(directory_name, (path,), parent),
    ensures
        first is Some && first->0@ == name,
        parent is Some && parent->0@ == name,
{
    let mid = dir@ + seq!['/'] + name;
    lemma_one_more(dir@, name);
    lemma_one_more(mid, file);
    let c = seq!['3'] + name;
    let f = seq!['3'] + file;
    let all = components(path@);
    assert(all == components(dir@).push(c).push(f));
    assert(components(dir@) =~= all.take(components(dir@).len() as int));
    assert(all[components(dir@).len() as int] == c);
    assert(c[0] == '3' && f[0] == '3');
    assert(c.skip(1) =~= name);
    assert(all.last() == f);
    assert(f != seq!['0']) by {
        assert(seq!['0'][0] == '0');
    }
    assert(all.drop_last() =~= components(dir@).push(c));
}

/// The stem of a name is what stands before its last dot; a name without a dot,
/// or with one only at its start, is its own stem.
pub proof fn law_a_stem_has_lost_its_ending(base: Seq<char>, ending: Seq<char>)
    requires
        !ending.contains('.'),
    ensures
        base.len() > 0 ==> stem(base + seq!['.'] + ending) == base,
        stem(seq!['.'] + ending) == seq!['.'] + ending,
        stem(ending) == ending,
{
    let name = base + seq!['.'] + ending;
    assert(name[base.len() as int] == '.');
    assert forall|i: int| base.len() < i < name.len() implies #[trigger] name[i] != '.' by {
        assert(name[i] == ending[i - base.len() - 1]);
        assert(ending.contains(name[i]));
    }
    lemma_last_dot(name, base.len() as int, name.len() as int);
    assert(name.take(base.len() as int) =~= base);
    let hidden = seq!['.'] + ending;
    assert(hidden[0] == '.');
    assert forall|i: int| 0 < i < hidden.len() implies #[trigger] hidden[i] != '.' by {
        assert(hidden[i] == ending[i - 1]);
        assert(ending.contains(hidden[i]));
    }
    lemma_last_dot(hidden, 0, hidden.len() as int);
    lemma_no_dot(ending, ending.len() as int);
}

proof fn lemma_last_dot(name: Seq<char>, at: int, n: int)
    requires
        0 <= at < n <= name.len(),
        name[at] == '.',
        forall|i: int| at < i < n ==> #[trigger] name[i] != '.',
    ensures
        last_dot(name, n) == Some(at),
    decreases n,
{
    if n - 1 > at {
        lemma_last_dot(name, at, n - 1);
    }
}

proof fn lemma_no_dot(name: Seq<char>, n: int)
    requires
        0 <= n <= name.len(),
        !name.contains('.'),
    ensures
        last_dot(name, n) is None,
    decreases n,
{
    if n > 0 {
        assert(name.contains(name[n - 1]));
        lemma_no_dot(name, n - 1);
    }
}

/// A directory does not lie below itself by any name, and a path lies below a
/// directory only by more steps than the directory has.
pub proof fn law_a_directory_is_not_below_itself(
    path: &str,
    dir: &str,
    first: Option<String>,
    below: bool,
)
    requires
        call_ensures(component_below, (path, dir), first),
        call_ensures(lies_below, (path, dir), below),
    ensures
        components(path@) == components(dir@) ==> first is None && below,
        first is Some ==> below && components(path@).len() > components(dir@).len(),
        !below ==> first is None,
{
    if components(path@) == components(dir@) {
        assert(components(path@).take(components(dir@).len() as int) =~= components(dir@));
    }
}

/// A step to the place itself is no step, and one to the parent is a step that
/// gives no name.
pub proof fn law_steps_to_the_place_itself_do_not_count(dir: Seq<char>)
    requires
        dir.len() > 0,
    ensures
        components(dir + seq!['/'] + "."@) == components(dir),
        components(dir + seq!['/'] + ".."@).len() == components(dir).len() + 1,
        last_name(components(dir + seq!['/'] + ".."@)) is None,
{
    reveal_strlit(".");
    reveal_strlit("..");
    let root = dir[0] == '/';
    let ps = pieces(dir, '/');
    let n = ps.len() as int;
    law_pieces_make_up_the_text(dir, '/');
    let here = "."@;
    let up = ".."@;
    assert(!here.contains('/')) by {
        assert(here.len() == 1 && here[0] == '.');
    }
    assert(!up.contains('/')) by {
        assert(up.len() == 2 && up[0] == '.' && up[1] == '.');
    }
    assert(up != here);
    lemma_pieces_push(dir, '/', here);
    lemma_pieces_push(dir, '/', up);
    lemma_components_to(ps, here, root, n);
    lemma_components_to(ps, up, root, n);
    assert((dir + seq!['/'] + here)[0] == dir[0]);
    assert((dir + seq!['/'] + up)[0] == dir[0]);
    assert(ps.push(here)[n] == here);
    assert(ps.push(up)[n] == up);
    assert(component_at(ps.push(here), root, n) is None);
    assert(component_at(ps.push(up), root, n) == Some(seq!['2']));
    assert(components(dir + seq!['/'] + here) =~= components(dir));
    let c = components(dir + seq!['/'] + up);
    assert(c =~= components(dir).push(seq!['2']));
    assert(c.last()[0] == '2');
}

} // verus!

//! Paths as texts, taken apart as the standard library does on Unix: the slash
//! separates, and nothing else does. Where the standard library takes paths apart in
//! another way, as on Windows, these functions still answer for Unix.
use vstd::prelude::*;
use vstd::string::*;

use crate::text::{
    cat, chars_of, ends_with, opt_text, pieces, same, split, starts_with, string_of_range, texts,
};

verus! {

/// A path below a directory; an absolute path is itself.
pub open spec fn path_below(dir: Seq<char>, rel: Seq<char>) -> Seq<char> {
    if rel.len() > 0 && rel[0] == '/' {
        rel
    } else if dir.len() == 0 || dir.last() == '/' {
        dir + rel
    } else {
        dir + "/"@ + rel
    }
}

/// A path below a directory; an absolute path is itself.
pub fn join_path(dir: &str, rel: &str) -> (r: String)
    ensures
        r@ == path_below(dir@, rel@),
{
    proof {
        reveal_strlit("/");
        assert("/"@ =~= seq!['/']);
        if rel@.len() > 0 {
            assert(rel@.subrange(0, 1)[0] == rel@[0]);
            assert(rel@[0] == '/' ==> rel@.subrange(0, 1) =~= "/"@);
        }
        if dir@.len() > 0 {
            let end = dir@.subrange(dir@.len() - 1, dir@.len() as int);
            assert(end[0] == dir@.last());
            assert(dir@.last() == '/' ==> end =~= "/"@);
        }
    }
    if starts_with(rel, "/") {
        rel.to_string()
    } else if dir.is_empty() || ends_with(dir, "/") {
        cat(dir, rel)
    } else {
        let mut s = cat(dir, "/");
        s.append(rel);
        s
    }
}

/// The components of a path, each by its rank and its text: the root, the
/// current directory (only where the path starts with it), a parent, a name.
pub open spec fn components(path: Seq<char>) -> Seq<Seq<char>> {
    let root = path.len() > 0 && path[0] == '/';
    let ps = pieces(path, '/');
    (if root {
        seq![seq!['0']]
    } else {
        Seq::empty()
    }) + components_to(ps, root, ps.len() as int)
}

/// The component that the piece at `i` of a path makes, if any.
pub open spec fn component_at(ps: Seq<Seq<char>>, root: bool, i: int) -> Option<Seq<char>> {
    if ps[i].len() == 0 {
        None
    } else if ps[i] == "."@ {
        if i == 0 && !root {
            Some(seq!['1'])
        } else {
            None
        }
    } else if ps[i] == ".."@ {
        Some(seq!['2'])
    } else {
        Some(seq!['3'] + ps[i])
    }
}

/// The components that the first `n` pieces of a path make.
pub open spec fn components_to(ps: Seq<Seq<char>>, root: bool, n: int) -> Seq<Seq<char>>
    decreases n,
{
    if n <= 0 || n > ps.len() {
        Seq::empty()
    } else {
        match component_at(ps, root, n - 1) {
            Some(c) => components_to(ps, root, n - 1).push(c),
            None => components_to(ps, root, n - 1),
        }
    }
}

/// The components of a path.
pub fn path_components(path: &str) -> (r: Vec<String>)
    ensures
        texts(r@) == components(path@),
{
    proof {
        reveal_strlit("/");
        reveal_strlit("0");
        reveal_strlit("1");
        reveal_strlit("2");
        reveal_strlit("3");
        assert("/"@ =~= seq!['/']);
        assert("0"@ =~= seq!['0']);
        assert("1"@ =~= seq!['1']);
        assert("2"@ =~= seq!['2']);
        assert("3"@ =~= seq!['3']);
        if path@.len() > 0 {
            assert(path@.subrange(0, 1)[0] == path@[0]);
            assert(path@[0] == '/' ==> path@.subrange(0, 1) =~= "/"@);
        }
    }
    let root = starts_with(path, "/");
    let ps = split(path, '/');
    let ghost all = texts(ps@);
    let mut out: Vec<String> = Vec::new();
    if root {
        out.push("0".to_string());
    }
    let ghost head = texts(out@);
    assert(head =~= if root {
        seq![seq!['0']]
    } else {
        Seq::empty()
    });
    let mut i: usize = 0;
    assert(texts(out@) =~= head + components_to(all, root, 0));
    while i < ps.len()
        invariant
            i <= ps@.len(),
            all == texts(ps@),
            "1"@ == seq!['1'],
            "2"@ == seq!['2'],
            "3"@ == seq!['3'],
            texts(out@) == head + components_to(all, root, i as int),
        decreases ps.len() - i,
    {
        let ghost before = out@;
        let ghost shown = components_to(all, root, i as int);
        assert(all[i as int] == ps@[i as int]@);
        let part: Option<String> = if ps[i].as_str().is_empty() {
            None
        } else if same(&ps[i], ".") {
            if i == 0 && !root {
                Some("1".to_string())
            } else {
                None
            }
        } else if same(&ps[i], "..") {
            Some("2".to_string())
        } else {
            Some(cat("3", &ps[i]))
        };
        assert(opt_text(part) == component_at(all, root, i as int));
        if let Some(c) = part {
            let ghost text = c@;
            out.push(c);
            proof {
                assert(texts(out@) =~= texts(before).push(text));
                assert(texts(out@) =~= head + shown.push(text));
            }
        }
        i += 1;
    }
    out
}

/// The text of a component.
pub open spec fn component_text(c: Seq<char>) -> Seq<char> {
    if c.len() == 0 || c[0] == '0' {
        "/"@
    } else if c[0] == '1' {
        "."@
    } else if c[0] == '2' {
        ".."@
    } else {
        c.skip(1)
    }
}

/// The name at the end of a path, if it ends with one.
pub open spec fn last_name(cs: Seq<Seq<char>>) -> Option<Seq<char>> {
    if cs.len() > 0 && cs.last().len() > 0 && cs.last()[0] == '3' {
        Some(cs.last().skip(1))
    } else {
        None
    }
}

/// The components of the directory that a path lies in; those of the path itself
/// where there is none.
pub open spec fn directory(cs: Seq<Seq<char>>) -> Seq<Seq<char>> {
    if cs.len() > 0 && cs.last() != seq!['0'] {
        cs.drop_last()
    } else {
        cs
    }
}

/// The position of the last dot before `n`.
pub open spec fn last_dot(name: Seq<char>, n: int) -> Option<int>
    decreases n,
{
    if n <= 0 || n > name.len() {
        None
    } else if name[n - 1] == '.' {
        Some(n - 1)
    } else {
        last_dot(name, n - 1)
    }
}

/// A name without its extension: what stands before its last dot, unless the
/// name starts with it.
pub open spec fn stem(name: Seq<char>) -> Seq<char> {
    match last_dot(name, name.len() as int) {
        Some(i) if i > 0 => name.take(i),
        _ => name,
    }
}

/// The stem of the name at the end of a path.
pub open spec fn path_stem(path: Seq<char>) -> Option<Seq<char>> {
    match last_name(components(path)) {
        Some(name) => Some(stem(name)),
        None => None,
    }
}

fn without_rank(c: &str) -> (r: String)
    requires
        c@.len() > 0,
    ensures
        r@ == c@.skip(1),
{
    let cs = chars_of(c);
    let r = string_of_range(&cs, 1, cs.len());
    assert(r@ =~= c@.skip(1));
    r
}

fn has_rank(c: &str, rank: &str) -> (r: bool)
    requires
        rank@.len() == 1,
    ensures
        r == (c@.len() > 0 && c@[0] == rank@[0]),
{
    proof {
        if c@.len() > 0 {
            assert(c@.subrange(0, 1)[0] == c@[0]);
            assert(c@[0] == rank@[0] ==> c@.subrange(0, 1) =~= rank@);
        }
    }
    starts_with(c, rank)
}

/// The text of a component.
pub fn show_component(c: &str) -> (r: String)
    ensures
        r@ == component_text(c@),
{
    proof {
        reveal_strlit("0");
        reveal_strlit("1");
        reveal_strlit("2");
    }
    if c.is_empty() || has_rank(c, "0") {
        "/".to_string()
    } else if has_rank(c, "1") {
        ".".to_string()
    } else if has_rank(c, "2") {
        "..".to_string()
    } else {
        without_rank(c)
    }
}

/// The name at the end of some components, if they end with one.
pub fn name_at_end(cs: &[String]) -> (r: Option<String>)
    ensures
        opt_text(r) == last_name(texts(cs@)),
{
    proof {
        reveal_strlit("3");
    }
    if cs.len() == 0 {
        return None;
    }
    let last = &cs[cs.len() - 1];
    assert(texts(cs@).last() == last@);
    if has_rank(last, "3") {
        Some(without_rank(last))
    } else {
        None
    }
}

/// The stem of the name at the end of a path.
pub fn file_stem(path: &str) -> (r: Option<String>)
    ensures
        opt_text(r) == path_stem(path@),
{
    let cs = path_components(path);
    match name_at_end(cs.as_slice()) {
        Some(name) => {
            let chars = chars_of(&name);
            let mut n: usize = chars.len();
            while n > 0 && chars[n - 1] != '.'
                invariant
                    n <= chars@.len(),
                    chars@ == name@,
                    last_dot(name@, name@.len() as int) == last_dot(name@, n as int),
                decreases n,
            {
                n -= 1;
            }
            if n > 1 {
                let r = string_of_range(&chars, 0, n - 1);
                assert(r@ =~= name@.take(n - 1));
                Some(r)
            } else {
                Some(name)
            }
        },
        None => None,
    }
}

/// The name of the directory that a path lies in, if it has one.
pub fn directory_name(path: &str) -> (r: Option<String>)
    ensures
        opt_text(r) == last_name(directory(components(path@))),
{
    let mut cs = path_components(path);
    proof {
        reveal_strlit("0");
        assert("0"@ =~= seq!['0']);
    }
    let ghost all = texts(cs@);
    if cs.len() > 0 {
        assert(all.last() == cs@.last()@);
        if !same(&cs[cs.len() - 1], "0") {
            cs.pop();
            assert(texts(cs@) =~= all.drop_last());
        }
    }
    name_at_end(cs.as_slice())
}

/// The first component of a path below a directory, if it lies there and is not
/// the directory itself.
pub open spec fn first_below(path: Seq<char>, dir: Seq<char>) -> Option<Seq<char>> {
    let p = components(path);
    let d = components(dir);
    if d.is_prefix_of(p) && d.len() < p.len() {
        Some(component_text(p[d.len() as int]))
    } else {
        None
    }
}

/// The first component of a path below a directory.
pub fn component_below(path: &str, dir: &str) -> (r: Option<String>)
    ensures
        opt_text(r) == first_below(path@, dir@),
{
    let p = path_components(path);
    let d = path_components(dir);
    let ghost ps = texts(p@);
    let ghost ds = texts(d@);
    if d.len() >= p.len() {
        return None;
    }
    let mut i: usize = 0;
    while i < d.len()
        invariant
            i <= d@.len(),
            d@.len() < p@.len(),
            ps == texts(p@),
            ds == texts(d@),
            ps == components(path@),
            ds == components(dir@),
            forall|k: int| 0 <= k < i ==> ps[k] == ds[k],
        decreases d.len() - i,
    {
        assert(ps[i as int] == p@[i as int]@ && ds[i as int] == d@[i as int]@);
        if !same(&p[i], &d[i]) {
            proof {
                if ds.is_prefix_of(ps) {
                    assert(ps.subrange(0, ds.len() as int)[i as int] == ps[i as int]);
                }
            }
            return None;
        }
        i += 1;
    }
    assert(ps.subrange(0, ds.len() as int) =~= ds);
    assert(ps[ds.len() as int] == p@[d@.len() as int]@);
    Some(show_component(&p[d.len()]))
}

/// Whether a path lies in a directory or below it.
pub fn lies_below(path: &str, dir: &str) -> (r: bool)
    ensures
        r == components(dir@).is_prefix_of(components(path@)),
{
    let cs = path_components(path);
    let ds = path_components(dir);
    let ghost x = texts(cs@);
    let ghost y = texts(ds@);
    if ds.len() > cs.len() {
        return false;
    }
    let mut i: usize = 0;
    while i < ds.len()
        invariant
            i <= ds@.len() <= cs@.len(),
            x == texts(cs@),
            y == texts(ds@),
            x == components(path@),
            y == components(dir@),
            forall|k: int| 0 <= k < i ==> x[k] == y[k],
        decreases ds.len() - i,
    {
        assert(x[i as int] == cs@[i as int]@ && y[i as int] == ds@[i as int]@);
        if !same(&cs[i], &ds[i]) {
            assert(x.subrange(0, y.len() as int)[i as int] == x[i as int]);
            return false;
        }
        i += 1;
    }
    assert(y =~= x.subrange(0, y.len() as int));
    true
}

} // verus!

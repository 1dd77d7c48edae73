//! Module paths: the dotted name that a file is imported under.

use vstd::prelude::*;

use crate::text::{
    chars_of, ends_with_str, ends_with_text, first_pieces, group_views, join, joined, split_last,
    split_str, split_text, str_eq, text_of, views,
};

verus! {

/// The components that the first `n` pieces of a path between slashes make: a
/// leading slash and a leading dot are kept, empty pieces and later dots are
/// not.
pub open spec fn components_upto(pieces: Seq<Seq<char>>, n: int) -> Seq<Seq<char>>
    decreases n,
{
    if n <= 0 {
        Seq::empty()
    } else {
        let s = components_upto(pieces, n - 1);
        let p = pieces[n - 1];
        if p.len() == 0 {
            if n == 1 && pieces.len() > 1 {
                s.push("/"@)
            } else {
                s
            }
        } else if p == "."@ && n > 1 {
            s
        } else {
            s.push(p)
        }
    }
}

pub open spec fn components(path: Seq<char>) -> Seq<Seq<char>> {
    let p = split_text(path, '/');
    components_upto(p, p.len() as int)
}

/// True when `a` begins with `b`.
pub open spec fn begins_with(a: Seq<Seq<char>>, b: Seq<Seq<char>>) -> bool {
    b.len() <= a.len() && a.subrange(0, b.len() as int) == b
}

/// True for a component that is a name.
pub open spec fn is_name(c: Seq<char>) -> bool {
    c != "/"@ && c != "."@ && c != ".."@
}

/// The names among the first `n` components.
pub open spec fn names_upto(cs: Seq<Seq<char>>, n: int) -> Seq<Seq<char>>
    decreases n,
{
    if n <= 0 {
        Seq::empty()
    } else if is_name(cs[n - 1]) {
        names_upto(cs, n - 1).push(cs[n - 1])
    } else {
        names_upto(cs, n - 1)
    }
}

/// A file name without the ending of a Python file.
pub open spec fn without_py(name: Seq<char>) -> Seq<char> {
    if ends_with_text(name, ".py"@) {
        name.subrange(0, name.len() - 3)
    } else {
        name
    }
}

/// The segments of a module path: the ending of the last is dropped, and so is
/// the file of a package itself.
pub open spec fn segments(names: Seq<Seq<char>>) -> Seq<Seq<char>> {
    if names.len() == 0 {
        names
    } else {
        let last = without_py(names.last());
        if last == "__init__"@ {
            names.drop_last()
        } else {
            names.drop_last().push(last)
        }
    }
}

/// A file name in front of its last dot, a leading dot aside.
pub open spec fn stem(name: Seq<char>) -> Seq<char> {
    if !name.contains('.') || first_pieces(name, '.').len() == 0 {
        name
    } else {
        first_pieces(name, '.')
    }
}

/// The stem of the last component, when it is a name.
pub open spec fn file_stem(path: Seq<char>) -> Seq<char> {
    let c = components(path);
    if c.len() > 0 && is_name(c.last()) {
        stem(c.last())
    } else {
        Seq::empty()
    }
}

/// The dotted module path of a file, seen from the root of a scan; the bare
/// stem of the file when it is not below the root or is the root itself.
pub open spec fn dotted_path(root: Seq<char>, path: Seq<char>) -> Seq<char> {
    let r = components(root);
    let p = components(path);
    let rel = p.subrange(r.len() as int, p.len() as int);
    let s = segments(names_upto(rel, rel.len() as int));
    if !begins_with(p, r) || s.len() == 0 {
        file_stem(path)
    } else {
        joined(s, "."@)
    }
}

fn path_components(path: &str) -> (r: Vec<String>)
    ensures
        views(r@) == components(path@),
{
    broadcast use group_views;

    let pieces = split_str(path, '/');
    let ghost pv = views(pieces@);
    let mut out: Vec<String> = Vec::new();
    let mut i: usize = 0;
    while i < pieces.len()
        invariant
            i <= pieces@.len(),
            pv == views(pieces@),
            views(out@) == components_upto(pv, i as int),
        decreases pieces@.len() - i,
    {
        broadcast use group_views;

        let p = pieces[i].as_str();
        assert(pv[i as int] == p@);
        proof {
            reveal_strlit("");
            assert(""@ =~= Seq::<char>::empty());
            assert(p@.len() == 0 ==> p@ =~= ""@);
        }
        if str_eq(p, "") {
            if i == 0 && pieces.len() > 1 {
                out.push("/".to_owned());
            }
        } else if !(str_eq(p, ".") && i > 0) {
            out.push(p.to_owned());
        }
        i = i + 1;
    }
    out
}

fn is_prefix(a: &Vec<String>, b: &Vec<String>) -> (r: bool)
    ensures
        r == begins_with(views(a@), views(b@)),
{
    if b.len() > a.len() {
        return false;
    }
    let ghost av = views(a@);
    let ghost bv = views(b@);
    let mut i: usize = 0;
    while i < b.len()
        invariant
            i <= b@.len() <= a@.len(),
            av == views(a@),
            bv == views(b@),
            forall|k: int| 0 <= k < i ==> av[k] == bv[k],
        decreases b@.len() - i,
    {
        assert(av[i as int] == a@[i as int]@ && bv[i as int] == b@[i as int]@);
        if !str_eq(a[i].as_str(), b[i].as_str()) {
            assert(av.subrange(0, bv.len() as int)[i as int] != bv[i as int]);
            return false;
        }
        i = i + 1;
    }
    assert(av.subrange(0, bv.len() as int) =~= bv);
    true
}

fn names_from(cs: &Vec<String>, from: usize) -> (r: Vec<String>)
    requires
        from <= cs@.len(),
    ensures
        views(r@) == names_upto(
            views(cs@).subrange(from as int, cs@.len() as int),
            cs@.len() - from,
        ),
{
    broadcast use group_views;

    let ghost rel = views(cs@).subrange(from as int, cs@.len() as int);
    let mut out: Vec<String> = Vec::new();
    let mut i: usize = from;
    while i < cs.len()
        invariant
            from <= i <= cs@.len(),
            rel == views(cs@).subrange(from as int, cs@.len() as int),
            views(out@) == names_upto(rel, i - from),
        decreases cs@.len() - i,
    {
        broadcast use group_views;

        let c = cs[i].as_str();
        assert(rel[i - from] == c@);
        if !str_eq(c, "/") && !str_eq(c, ".") && !str_eq(c, "..") {
            out.push(c.to_owned());
        }
        i = i + 1;
    }
    out
}

fn strip_py(name: &str) -> (r: String)
    ensures
        r@ == without_py(name@),
{
    if ends_with_str(name, ".py") {
        proof {
            reveal_strlit(".py");
        }
        let v = chars_of(name);
        text_of(&v, 0, v.len() - 3)
    } else {
        name.to_owned()
    }
}

fn stem_of_path(path: &str) -> (r: String)
    ensures
        r@ == file_stem(path@),
{
    let cs = path_components(path);
    let ghost cv = views(cs@);
    if cs.len() == 0 {
        return String::new();
    }
    let last = cs[cs.len() - 1].as_str();
    assert(cv.last() == last@);
    if str_eq(last, "/") || str_eq(last, ".") || str_eq(last, "..") {
        return String::new();
    }
    match split_last(last, '.') {
        Some((head, _)) => {
            let h = chars_of(head.as_str());
            if h.len() == 0 {
                last.to_owned()
            } else {
                head
            }
        },
        None => last.to_owned(),
    }
}

/// The dotted path that a file is imported under when `root` is on the import
/// path: `pkg/mod.py` is `pkg.mod`, and `pkg/__init__.py` is `pkg`. Components
/// are separated by `/`.
pub fn module_path_of(root: &str, path: &str) -> (r: String)
    ensures
        r@ == dotted_path(root@, path@),
{
    broadcast use group_views;

    let r = path_components(root);
    let p = path_components(path);
    if !is_prefix(&p, &r) {
        return stem_of_path(path);
    }
    let mut parts = names_from(&p, r.len());
    let ghost names = views(parts@);
    if parts.len() > 0 {
        let n: usize = parts.len();
        let last = strip_py(parts[n - 1].as_str());
        assert(names.last() == parts@[n - 1]@);
        parts.pop();
        assert(views(parts@) =~= names.drop_last());
        if !str_eq(last.as_str(), "__init__") {
            parts.push(last);
        }
    }
    assert(views(parts@) == segments(names));
    if parts.len() == 0 {
        stem_of_path(path)
    } else {
        join(&parts, ".")
    }
}

/// True for the name of a file whose extension is `py`. A name that is nothing
/// but the extension has none.
pub open spec fn has_py_extension(name: Seq<char>) -> bool {
    ends_with_text(name, ".py"@) && name.len() > 3
}

pub fn is_python_file(name: &str) -> (r: bool)
    ensures
        r == has_py_extension(name@),
{
    ends_with_str(name, ".py") && chars_of(name).len() > 3
}

} // verus!

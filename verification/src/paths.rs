//! File paths with `/` between their components.
use crate::strings::{owned, same, split_on};
use vstd::prelude::*;

verus! {

/// A piece of a path that names something: neither empty nor the directory itself.
pub open spec fn is_component(piece: Seq<char>) -> bool {
    piece.len() > 0 && piece != "."@
}

/// The components among the pieces of a path.
pub open spec fn components_of(pieces: Seq<Seq<char>>) -> Seq<Seq<char>>
    decreases pieces.len(),
{
    if pieces.len() == 0 {
        Seq::empty()
    } else {
        let rest = components_of(pieces.drop_last());
        if is_component(pieces.last()) {
            rest.push(pieces.last())
        } else {
            rest
        }
    }
}

/// The components of a path.
pub open spec fn components(path: Seq<char>) -> Seq<Seq<char>> {
    components_of(crate::strings::split(path, '/'))
}

/// The last component of a path, unless the path has none or ends in its parent directory.
pub open spec fn file_name(path: Seq<char>) -> Option<Seq<char>> {
    let parts = components(path);
    if parts.len() == 0 || parts.last() == ".."@ {
        None
    } else {
        Some(parts.last())
    }
}

/// The path begins at the root.
pub open spec fn is_absolute(path: Seq<char>) -> bool {
    path.len() > 0 && path[0] == '/'
}

/// The components of a path.
pub fn path_components(path: &str) -> (r: Vec<String>)
    ensures
        crate::strings::views(r@) == components(path@),
{
    let pieces = split_on(path, '/');
    let ghost all = crate::strings::views(pieces@);
    let mut out: Vec<String> = Vec::new();
    let mut i: usize = 0;
    assert(all.take(0) =~= Seq::empty());
    while i < pieces.len()
        invariant
            i <= pieces@.len(),
            all == crate::strings::views(pieces@),
            crate::strings::views(out@) =~= components_of(all.take(i as int)),
        decreases pieces@.len() - i,
    {
        assert(all.take(i + 1).drop_last() =~= all.take(i as int));
        let piece = pieces[i].as_str();
        if !piece.is_empty() && !same(piece, ".") {
            let ghost before = out@;
            out.push(owned(piece));
            assert(crate::strings::views(out@) =~= crate::strings::views(before).push(all[i as int]));
        }
        i += 1;
    }
    assert(all.take(all.len() as int) =~= all);
    out
}

/// The last component of a path, unless the path has none or ends in its parent directory.
pub fn path_file_name(path: &str) -> (r: Option<String>)
    ensures
        match r {
            Some(name) => file_name(path@) == Some(name@),
            None => file_name(path@) is None,
        },
{
    let parts = path_components(path);
    if parts.len() == 0 {
        return None;
    }
    let last = parts[parts.len() - 1].clone();
    assert(last@ == components(path@).last());
    if same(last.as_str(), "..") {
        None
    } else {
        Some(last)
    }
}

/// Whether the path begins at the root.
pub fn path_is_absolute(path: &str) -> (r: bool)
    ensures
        r == is_absolute(path@),
{
    let v = crate::strings::to_chars(path);
    v.len() > 0 && v[0] == '/'
}

/// Whether one of the components leads to the parent directory.
pub fn has_parent_component(path: &str) -> (r: bool)
    ensures
        r == components(path@).contains(".."@),
{
    let parts = path_components(path);
    crate::strings::is_in("..", &parts)
}

/// The path `part` below `base`, as Unix reads it: an absolute `part` stands for itself, and a slash
/// comes between the two unless `base` is empty or ends with one.
pub open spec fn joined(base: Seq<char>, part: Seq<char>) -> Seq<char> {
    if is_absolute(part) {
        part
    } else if base.len() == 0 || base.last() == '/' {
        base + part
    } else {
        base + "/"@ + part
    }
}

/// The path `part` below `base`.
pub fn join_path(base: &str, part: &str) -> (r: String)
    ensures
        r@ == joined(base@, part@),
{
    let chars = crate::strings::to_chars(base);
    if path_is_absolute(part) {
        owned(part)
    } else if chars.len() == 0 || chars[chars.len() - 1] == '/' {
        owned(base).concat(part)
    } else {
        owned(base).concat("/").concat(part)
    }
}

} // verus!

//! File paths as text.
use crate::text::{chars_of, rows, split, split_of};
use vstd::prelude::*;
use vstd::string::StringExecFns;

verus! {

/// A path with a name appended to it.
pub open spec fn path_join(root: Seq<char>, name: Seq<char>) -> Seq<char> {
    if root.len() == 0 || root.last() == '/' {
        root + name
    } else {
        root + "/"@ + name
    }
}

/// Computes [`path_join`].
pub fn join_path(root: &str, name: &str) -> (r: String)
    ensures
        r@ == path_join(root@, name@),
{
    let chars = chars_of(root);
    let mut out = root.to_owned();
    if chars.len() > 0 && chars[chars.len() - 1] != '/' {
        out.append("/");
    }
    out.append(name);
    out
}

/// Whether a piece of a path between slashes counts as a component. An empty piece does not, nor
/// does a dot behind the beginning of the path.
pub open spec fn is_component(pieces: Seq<Seq<char>>, i: int) -> bool {
    let p = pieces[i];
    p.len() > 0 && (p != seq!['.'] || i == 0)
}

/// The components among the first `n` pieces of a path.
pub open spec fn components_upto(pieces: Seq<Seq<char>>, n: int) -> Seq<Seq<char>>
    decreases n,
{
    if n <= 0 {
        Seq::empty()
    } else if is_component(pieces, n - 1) {
        components_upto(pieces, n - 1).push(pieces[n - 1])
    } else {
        components_upto(pieces, n - 1)
    }
}

/// The components of a path, without the root directory.
pub open spec fn components(s: Seq<char>) -> Seq<Seq<char>> {
    components_upto(split(s, '/'), split(s, '/').len() as int)
}

/// Whether a path starts at the root directory.
pub open spec fn is_rooted(s: Seq<char>) -> bool {
    s.len() > 0 && s[0] == '/'
}

/// Whether a path is the root directory itself.
pub open spec fn is_root_directory(s: Seq<char>) -> bool {
    is_rooted(s) && components(s).len() == 0
}

/// Whether `dir` is the directory that a path lies in.
pub open spec fn is_parent(dir: Seq<char>, path: Seq<char>) -> bool {
    &&& components(path).len() > 0
    &&& is_rooted(path) == is_rooted(dir)
    &&& components(dir) == components(path).drop_last()
}

fn components_of(s: &Vec<char>) -> (r: Vec<Vec<char>>)
    ensures
        rows(r@) == components(s@),
{
    let pieces = split_of(s, '/');
    let ghost p = split(s@, '/');
    assert(rows(pieces@).len() == pieces@.len());
    let mut out: Vec<Vec<char>> = Vec::new();
    assert(rows(out@) =~= Seq::<Seq<char>>::empty());
    for i in 0..pieces.len()
        invariant
            p == rows(pieces@),
            p.len() == pieces@.len(),
            rows(out@) == components_upto(p, i as int),
    {
        assert(p[i as int] == pieces@[i as int]@);
        let dot = pieces[i].len() == 1 && pieces[i][0] == '.';
        assert(dot == (p[i as int] == seq!['.'])) by {
            if dot {
                assert(p[i as int] =~= seq!['.']);
            }
        }
        if pieces[i].len() > 0 && (!dot || i == 0) {
            let mut row: Vec<char> = Vec::new();
            let len: usize = pieces[i].len();
            for j in 0..len
                invariant
                    i < pieces.len(),
                    len == pieces@[i as int].len(),
                    row@ == pieces@[i as int]@.take(j as int),
            {
                row.push(pieces[i][j]);
                assert(row@ =~= pieces@[i as int]@.take(j + 1));
            }
            assert(row@ =~= p[i as int]);
            let ghost before = rows(out@);
            out.push(row);
            assert(rows(out@) =~= before.push(row@));
        }
    }
    out
}

/// Decides [`is_root_directory`].
pub fn root_directory(s: &str) -> (r: bool)
    ensures
        r == is_root_directory(s@),
{
    let chars = chars_of(s);
    let parts = components_of(&chars);
    assert(rows(parts@).len() == parts@.len());
    chars.len() > 0 && chars[0] == '/' && parts.len() == 0
}

/// Decides [`is_parent`].
pub fn parent_is(dir: &str, path: &str) -> (r: bool)
    ensures
        r == is_parent(dir@, path@),
{
    let d = chars_of(dir);
    let p = chars_of(path);
    let dc = components_of(&d);
    let pc = components_of(&p);
    assert(rows(dc@).len() == dc@.len() && rows(pc@).len() == pc@.len());
    let droot = d.len() > 0 && d[0] == '/';
    let proot = p.len() > 0 && p[0] == '/';
    if pc.len() == 0 || droot != proot {
        return false;
    }
    if dc.len() != pc.len() - 1 {
        return false;
    }
    for i in 0..dc.len()
        invariant
            rows(dc@) == components(dir@),
            rows(pc@) == components(path@),
            dc.len() == pc.len() - 1,
            forall|k: int| 0 <= k < i ==> #[trigger] components(dir@)[k] == components(path@)[k],
    {
        assert(components(dir@)[i as int] == dc@[i as int]@);
        assert(components(path@)[i as int] == pc@[i as int]@);
        if !same_row(&dc[i], &pc[i]) {
            assert(components(dir@)[i as int] != components(path@).drop_last()[i as int]);
            return false;
        }
    }
    assert(components(dir@) =~= components(path@).drop_last());
    true
}

fn same_row(a: &Vec<char>, b: &Vec<char>) -> (r: bool)
    ensures
        r == (a@ == b@),
{
    if a.len() != b.len() {
        return false;
    }
    for i in 0..a.len()
        invariant
            a.len() == b.len(),
            forall|k: int| 0 <= k < i ==> a@[k] == b@[k],
    {
        if a[i] != b[i] {
            assert(a@[i as int] != b@[i as int]);
            return false;
        }
    }
    assert(a@ =~= b@);
    true
}

} // verus!

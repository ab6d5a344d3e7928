use vstd::prelude::*;
use heck::SnakeCase;

verus! {

/// The snake-case form of a name.
pub uninterp spec fn snake_of(s: Seq<char>) -> Seq<char>;

/// Relies on heck's `SnakeCase::to_snake_case` for `str`: the snake-case
/// form of the name, which depends on its characters alone.
#[verifier::external_body]
fn snake_case(s: &str) -> (r: String)
    ensures
        r@ == snake_of(s@),
{
    s.to_snake_case()
}

/// The prefix that names a context's client mirror module.
pub open spec fn client_prefix() -> Seq<char> {
    "__client_accounts_"@
}

/// A path as the sequence of its segments' text.
pub open spec fn path_view(p: Seq<String>) -> Seq<Seq<char>> {
    p.map_values(|s: String| s@)
}

/// `path` with its last segment replaced by the mirror module's name, built
/// from `snake_last`, the snake-case form of that segment.
pub open spec fn mirror_path_of(path: Seq<Seq<char>>, snake_last: Seq<char>) -> Seq<Seq<char>> {
    if path.len() == 0 {
        path
    } else {
        path.drop_last().push(client_prefix() + snake_last)
    }
}

/// The path of the client mirror module of the context at `path`.
pub open spec fn mirror_of(path: Seq<Seq<char>>) -> Seq<Seq<char>> {
    if path.len() == 0 {
        path
    } else {
        mirror_path_of(path, snake_of(path.last()))
    }
}

/// The paths of `ps` in order, each kept only at its first occurrence.
pub open spec fn dedup_paths(ps: Seq<Seq<Seq<char>>>) -> Seq<Seq<Seq<char>>>
    decreases ps.len(),
{
    if ps.len() == 0 {
        ps
    } else {
        let before = dedup_paths(ps.drop_last());
        if before.contains(ps.last()) {
            before
        } else {
            before.push(ps.last())
        }
    }
}

/// Replaces the last segment of `path` by the mirror module's name, given
/// `snake_last`, the snake-case form of that segment.
pub fn mirror_path(path: &Vec<String>, snake_last: &str) -> (r: Vec<String>)
    ensures
        path_view(r@) == mirror_path_of(path_view(path@), snake_last@),
{
    let mut r: Vec<String> = Vec::new();
    if path.len() == 0 {
        assert(path_view(r@) =~= path_view(path@));
        return r;
    }
    let last = path.len() - 1;
    let mut i: usize = 0;
    while i < last
        invariant
            last + 1 == path@.len(),
            i <= last,
            r@.len() == i,
            path_view(r@) == path_view(path@).take(i as int),
        decreases last - i,
    {
        let seg = path[i].clone();
        assert(seg@ == path@[i as int]@);
        r.push(seg);
        assert(path_view(r@)[i as int] == path_view(path@)[i as int]);
        assert(path_view(r@) =~= path_view(path@).take(i + 1));
        i = i + 1;
    }
    let mut name = String::from_str("__client_accounts_");
    name.append(snake_last);
    r.push(name);
    assert(path_view(r@) =~= mirror_path_of(path_view(path@), snake_last@));
    r
}

/// The path of the client mirror module of the context at `path`.
pub fn client_path(path: &Vec<String>) -> (r: Vec<String>)
    ensures
        path_view(r@) == mirror_of(path_view(path@)),
{
    if path.len() == 0 {
        return mirror_path(path, "");
    }
    let snake = snake_case(path[path.len() - 1].as_str());
    mirror_path(path, snake.as_str())
}

/// Whether two paths have the same segments.
pub fn same_path(a: &Vec<String>, b: &Vec<String>) -> (r: bool)
    ensures
        r == (path_view(a@) == path_view(b@)),
{
    if a.len() != b.len() {
        proof {
            if path_view(a@) == path_view(b@) {
                assert(path_view(a@).len() == a@.len());
            }
        }
        return false;
    }
    let mut i: usize = 0;
    while i < a.len()
        invariant
            a@.len() == b@.len(),
            i <= a@.len(),
            forall|j: int| 0 <= j < i ==> a@[j]@ == b@[j]@,
        decreases a@.len() - i,
    {
        if a[i] != b[i] {
            proof {
                assert(path_view(a@)[i as int] != path_view(b@)[i as int]);
            }
            return false;
        }
        i = i + 1;
    }
    assert(path_view(a@) =~= path_view(b@));
    true
}

/// Whether `paths` already holds `p`.
pub fn contains_path(paths: &Vec<Vec<String>>, p: &Vec<String>) -> (r: bool)
    ensures
        r == paths@.map_values(|q: Vec<String>| path_view(q@)).contains(path_view(p@)),
{
    let ghost pv = paths@.map_values(|q: Vec<String>| path_view(q@));
    let mut i: usize = 0;
    while i < paths.len()
        invariant
            i <= paths@.len(),
            pv == paths@.map_values(|q: Vec<String>| path_view(q@)),
            forall|j: int| 0 <= j < i ==> pv[j] != path_view(p@),
        decreases paths@.len() - i,
    {
        if same_path(&paths[i], p) {
            assert(pv[i as int] == path_view(p@));
            return true;
        }
        i = i + 1;
    }
    false
}

/// The client mirror module paths for the contexts at `ix_paths`, one per
/// distinct result, in order of first occurrence: contexts whose paths
/// differ stay apart even where their last segments agree.
pub fn client_account_paths(ix_paths: &Vec<Vec<String>>) -> (r: Vec<Vec<String>>)
    ensures
        r@.map_values(|q: Vec<String>| path_view(q@)) == dedup_paths(
            ix_paths@.map_values(|p: Vec<String>| mirror_of(path_view(p@))),
        ),
{
    let ghost ms = ix_paths@.map_values(|p: Vec<String>| mirror_of(path_view(p@)));
    let mut r: Vec<Vec<String>> = Vec::new();
    let mut i: usize = 0;
    while i < ix_paths.len()
        invariant
            i <= ix_paths@.len(),
            ms == ix_paths@.map_values(|p: Vec<String>| mirror_of(path_view(p@))),
            r@.map_values(|q: Vec<String>| path_view(q@)) == dedup_paths(ms.take(i as int)),
        decreases ix_paths@.len() - i,
    {
        let m = client_path(&ix_paths[i]);
        assert(ms.take(i + 1).drop_last() =~= ms.take(i as int));
        assert(ms.take(i + 1).last() == path_view(m@));
        if !contains_path(&r, &m) {
            let ghost before = r@;
            r.push(m);
            assert(r@.map_values(|q: Vec<String>| path_view(q@)) =~= before.map_values(
                |q: Vec<String>| path_view(q@),
            ).push(path_view(m@)));
        }
        i = i + 1;
    }
    assert(ms.take(i as int) =~= ms);
    r
}

} // verus!

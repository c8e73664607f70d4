use vstd::prelude::*;

verus! {

/// `name` placed under the directory `base`, with `/` as the separator; an
/// absolute `name` stands for itself.
pub open spec fn join_path(base: Seq<char>, name: Seq<char>) -> Seq<char> {
    if name.len() > 0 && name[0] == '/' {
        name
    } else if base.len() == 0 || base.last() == '/' {
        base + name
    } else {
        base + seq!['/'] + name
    }
}

/// The text of `p` up to and including its last `/`; empty where it has none.
pub open spec fn parent_prefix(p: Seq<char>) -> Seq<char>
    decreases p.len(),
{
    if p.len() == 0 {
        p
    } else if p.last() == '/' {
        p
    } else {
        parent_prefix(p.drop_last())
    }
}

/// `name` placed beside the file `p`, in the same directory.
pub open spec fn sibling_path(p: Seq<char>, name: Seq<char>) -> Seq<char> {
    join_path(parent_prefix(p), name)
}

/// Joins `name` onto the directory `base`.
pub fn join(base: &str, name: &str) -> (r: String)
    ensures
        r@ == join_path(base@, name@),
{
    let nl = name.unicode_len();
    let bl = base.unicode_len();
    if nl > 0 && name.get_char(0) == '/' {
        return name.to_owned();
    }
    if bl == 0 || base.get_char(bl - 1) == '/' {
        base.to_owned().concat(name)
    } else {
        proof {
            reveal_strlit("/");
        }
        let r = base.to_owned().concat("/").concat(name);
        assert(r@ =~= join_path(base@, name@));
        r
    }
}

/// Places `name` beside the file at `path`.
pub fn sibling(path: &str, name: &str) -> (r: String)
    ensures
        r@ == sibling_path(path@, name@),
{
    let mut k: usize = path.unicode_len();
    assert(path@.subrange(0, k as int) =~= path@);
    while k > 0 && path.get_char(k - 1) != '/'
        invariant
            k <= path@.len(),
            parent_prefix(path@.subrange(0, k as int)) == parent_prefix(path@),
        decreases k,
    {
        assert(path@.subrange(0, k - 1) =~= path@.subrange(0, k as int).drop_last());
        k = k - 1;
    }
    let dir = path.substring_char(0, k);
    assert(parent_prefix(path@.subrange(0, k as int)) == path@.subrange(0, k as int));
    join(dir, name)
}

} // verus!

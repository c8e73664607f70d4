use vstd::prelude::*;

use crate::config::Config;
use crate::error::{views, ErrorKind, ErrorModel};
use crate::paths::{join, join_path, sibling, sibling_path};

verus! {

/// The paths tried for `name`, in order: beside the calling file if there is
/// one, then under each search directory.
pub open spec fn candidates(dirs: Seq<Seq<char>>, name: Seq<char>, caller: Option<Seq<char>>) -> Seq<
    Seq<char>,
> {
    let dir_paths = dirs.map_values(|d: Seq<char>| join_path(d, name));
    match caller {
        Some(c) => seq![sibling_path(c, name)] + dir_paths,
        None => dir_paths,
    }
}

/// The first of `cands` that `disk` holds.
pub open spec fn first_present(cands: Seq<Seq<char>>, disk: Set<Seq<char>>) -> Option<Seq<char>>
    decreases cands.len(),
{
    if cands.len() == 0 {
        None
    } else if disk.contains(cands[0]) {
        Some(cands[0])
    } else {
        first_present(cands.drop_first(), disk)
    }
}

/// `probe` answers whether a path exists as membership in `disk` does.
pub open spec fn answers_by<F: Fn(&str) -> bool>(probe: F, disk: Set<Seq<char>>) -> bool {
    forall|s: &str, b: bool| #[trigger] probe.ensures((s,), b) ==> b == disk.contains(s@)
}

/// `probe` was called on a string with these characters and answered no.
pub open spec fn said_absent<F: Fn(&str) -> bool>(probe: F, c: Seq<char>) -> bool {
    exists|s: &str| s@ == c && #[trigger] probe.ensures((s,), false)
}

/// The option's string as a character sequence.
pub open spec fn opt_view(o: Option<&str>) -> Option<Seq<char>> {
    match o {
        Some(s) => Some(s@),
        None => None,
    }
}

proof fn lemma_first_present_step(cands: Seq<Seq<char>>, k: int, disk: Set<Seq<char>>)
    requires
        0 <= k < cands.len(),
        forall|j: int| 0 <= j < k ==> !disk.contains(#[trigger] cands[j]),
    ensures
        first_present(cands, disk) == first_present(cands.subrange(k, cands.len() as int), disk),
    decreases k,
{
    if k > 0 {
        lemma_first_present_step(cands.drop_first(), k - 1, disk);
        assert(cands.drop_first().subrange(k - 1, cands.drop_first().len() as int) =~= cands.subrange(
            k,
            cands.len() as int,
        ));
    } else {
        assert(cands.subrange(0, cands.len() as int) =~= cands);
    }
}

proof fn lemma_first_present_none(cands: Seq<Seq<char>>, disk: Set<Seq<char>>)
    requires
        forall|j: int| 0 <= j < cands.len() ==> !disk.contains(#[trigger] cands[j]),
    ensures
        first_present(cands, disk) is None,
    decreases cands.len(),
{
    if cands.len() > 0 {
        lemma_first_present_none(cands.drop_first(), disk);
    }
}

impl Config {
    /// Finds the template `name`: beside the file `start_at` if it exists
    /// there, else under the first search directory that holds it. `probe`
    /// reports whether a path exists.
    pub fn find_template<F: Fn(&str) -> bool>(&self, name: &str, start_at: Option<&str>, probe: F) -> (r:
        Result<String, ErrorKind>)
        requires
            forall|s: &str| probe.requires((s,)),
        ensures
            forall|disk: Set<Seq<char>>|
                #![trigger answers_by(probe, disk)]
                answers_by(probe, disk) ==> match r {
                    Ok(p) => first_present(
                        candidates(views(self.dirs@), name@, opt_view(start_at)),
                        disk,
                    ) == Some(p@),
                    Err(_) => first_present(
                        candidates(views(self.dirs@), name@, opt_view(start_at)),
                        disk,
                    ) is None,
                },
            match r {
                Ok(p) => candidates(views(self.dirs@), name@, opt_view(start_at)).contains(p@),
                Err(e) => e@ == ErrorModel::TemplateNotFound(name@, views(self.dirs@)),
            },
    {
        let ghost cands = candidates(views(self.dirs@), name@, opt_view(start_at));
        let ghost dir_paths = views(self.dirs@).map_values(|d: Seq<char>| join_path(d, name@));
        let ghost offset: int = if start_at is Some { 1 } else { 0 };
        if let Some(caller) = start_at {
            let relative = sibling(caller, name);
            let rs = relative.as_str();
            let found = probe(rs);
            assert(cands[0] == relative@);
            if found {
                proof {
                    assert forall|disk: Set<Seq<char>>| answers_by(probe, disk) implies first_present(cands, disk) == Some(relative@) by {
                        assert(probe.ensures((rs,), found));
                    }
                }
                return Ok(relative);
            }
            assert(said_absent(probe, cands[0]));
        }
        let mut i: usize = 0;
        while i < self.dirs.len()
            invariant
                i <= self.dirs@.len(),
                cands == candidates(views(self.dirs@), name@, opt_view(start_at)),
                dir_paths == views(self.dirs@).map_values(|d: Seq<char>| join_path(d, name@)),
                cands.len() == offset + dir_paths.len(),
                offset == (if start_at is Some { 1int } else { 0 }),
                forall|j: int| 0 <= j < dir_paths.len() ==> cands[offset + j] == #[trigger] dir_paths[j],
                forall|j: int| 0 <= j < offset + i ==> said_absent(probe, #[trigger] cands[j]),
                forall|s: &str| probe.requires((s,)),
            decreases self.dirs@.len() - i,
        {
            let rooted = join(self.dirs[i].as_str(), name);
            let rs = rooted.as_str();
            let found = probe(rs);
            assert(dir_paths[i as int] == rooted@);
            assert(cands[offset + i] == rooted@);
            if found {
                proof {
                    assert forall|disk: Set<Seq<char>>| answers_by(probe, disk) implies first_present(cands, disk) == Some(rooted@) by {
                        assert forall|j: int| 0 <= j < offset + i implies !disk.contains(#[trigger] cands[j]) by {
                            let s = choose|s: &str| s@ == cands[j] && #[trigger] probe.ensures((s,), false);
                            assert(probe.ensures((s,), false));
                        }
                        lemma_first_present_step(cands, offset + i, disk);
                    }
                }
                return Ok(rooted);
            }
            assert(said_absent(probe, cands[offset + i]));
            i = i + 1;
        }
        proof {
            assert forall|disk: Set<Seq<char>>| answers_by(probe, disk) implies first_present(cands, disk) is None by {
                assert forall|j: int| 0 <= j < cands.len() implies !disk.contains(#[trigger] cands[j]) by {
                    let s = choose|s: &str| s@ == cands[j] && #[trigger] probe.ensures((s,), false);
                            assert(probe.ensures((s,), false));
                }
                lemma_first_present_none(cands, disk);
            }
        }
        Err(ErrorKind::TemplateNotFound { name: name.to_owned(), dirs: self.dirs.clone() })
    }
}

} // verus!

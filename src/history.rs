//! The deployment history: which directory entries are deployments, the
//! rollback target, and which deployments a cleanup removes.
use vstd::prelude::*;
use vstd::string::*;
use crate::error::HammerError;
use crate::order::{is_sorting_of, lex_le, sort_names, sorted};
use crate::text::{has_prefix, lines_of, split_lines, starts_with, views};

verus! {

/// The directory that holds the deployments.
pub const DEPLOYMENTS_DIR: &'static str = "/btrfs-root/deployments";

/// The prefix of every deployment's name.
pub const NAME_PREFIX: &'static str = "hammer-";

/// How many deployments a cleanup keeps.
pub const KEEP: usize = 5;

/// The path of the deployment named `name`.
pub open spec fn path_of(name: Seq<char>) -> Seq<char> {
    DEPLOYMENTS_DIR@ + "/"@ + name
}

/// The history that a listing of the deployments directory shows: the paths of
/// the entries whose name has the deployment prefix, in listing order.
pub open spec fn history_of(listing: Seq<char>) -> Seq<Seq<char>> {
    history_in(lines_of(listing))
}

/// The paths of the entries of `ls` whose name has the deployment prefix.
pub open spec fn history_in(ls: Seq<Seq<char>>) -> Seq<Seq<char>>
    decreases ls.len(),
{
    if ls.len() == 0 {
        Seq::empty()
    } else if has_prefix(ls.last(), NAME_PREFIX@) {
        history_in(ls.drop_last()).push(path_of(ls.last()))
    } else {
        history_in(ls.drop_last())
    }
}

/// Every listed entry with the deployment prefix is in the history.
pub proof fn lemma_listed_in_history(ls: Seq<Seq<char>>, name: Seq<char>)
    requires
        ls.contains(name),
        has_prefix(name, NAME_PREFIX@),
    ensures
        history_in(ls).contains(path_of(name)),
    decreases ls.len(),
{
    if ls.last() == name {
        assert(history_in(ls).last() == path_of(name));
    } else {
        let k = choose|k: int| 0 <= k < ls.len() && ls[k] == name;
        assert(ls.drop_last()[k] == name);
        lemma_listed_in_history(ls.drop_last(), name);
        let h = history_in(ls.drop_last());
        let i = choose|i: int| 0 <= i < h.len() && h[i] == path_of(name);
        if has_prefix(ls.last(), NAME_PREFIX@) {
            assert(history_in(ls)[i] == path_of(name));
        }
    }
}

/// Joins a deployment name to the deployments directory.
pub fn deployment_path(name: &str) -> (r: String)
    ensures
        r@ == path_of(name@),
{
    let mut p = String::from_str(DEPLOYMENTS_DIR);
    p.append("/");
    p.append(name);
    p
}

/// The deployment paths in a listing of the deployments directory, one entry a line.
pub fn history_paths(listing: &str) -> (r: Vec<String>)
    ensures
        views(r@) == history_of(listing@),
{
    let lines = split_lines(listing);
    let ghost ls = lines_of(listing@);
    let mut out: Vec<String> = Vec::new();
    let mut i: usize = 0;
    while i < lines.len()
        invariant
            i <= lines@.len(),
            views(lines@) == ls,
            ls == lines_of(listing@),
            views(out@) == history_in(ls.take(i as int)),
        decreases lines@.len() - i,
    {
        let line = &lines[i];
        assert(ls.take(i + 1).drop_last() =~= ls.take(i as int));
        assert(line@ == ls[i as int]);
        if starts_with(line.as_str(), NAME_PREFIX) {
            let p = deployment_path(line.as_str());
            let ghost before = views(out@);
            out.push(p);
            assert(views(out@) =~= before + seq![p@]);
        }
        i = i + 1;
    }
    assert(ls.take(lines@.len() as int) =~= ls);
    out
}

/// The deployment that a rollback returns to: the second newest in name order.
pub fn select_rollback(history: &Vec<String>) -> (r: Result<String, HammerError>)
    ensures
        r is Ok <==> history@.len() >= 2,
        r is Err ==> r == Err::<String, HammerError>(HammerError::InsufficientHistory),
        r matches Ok(t) ==> exists|p: Seq<Seq<char>>|
            is_sorting_of(p, views(history@)) && #[trigger] p[p.len() - 2] == t@,
{
    if history.len() < 2 {
        return Err(HammerError::InsufficientHistory);
    }
    let s = sort_names(history);
    proof {
        vstd::seq_lib::to_multiset_len(views(s@));
        vstd::seq_lib::to_multiset_len(views(history@));
    }
    let t = s[s.len() - 2].clone();
    assert(views(s@)[views(s@).len() - 2] == t@);
    Ok(t)
}

/// The deployments of `p` that a cleanup removes: all but the newest `KEEP`.
pub open spec fn doomed(p: Seq<Seq<char>>) -> Seq<Seq<char>> {
    if p.len() > KEEP {
        p.take(p.len() - KEEP)
    } else {
        Seq::empty()
    }
}

/// The deployments of `p` that a cleanup keeps.
pub open spec fn kept(p: Seq<Seq<char>>) -> Seq<Seq<char>> {
    if p.len() > KEEP {
        p.skip(p.len() - KEEP)
    } else {
        p
    }
}

/// The deployments that a cleanup deletes, oldest first.
pub fn clean_plan(history: &Vec<String>) -> (r: Vec<String>)
    ensures
        exists|p: Seq<Seq<char>>|
            is_sorting_of(p, views(history@)) && #[trigger] doomed(p) == views(r@),
{
    let mut s = sort_names(history);
    proof {
        vstd::seq_lib::to_multiset_len(views(s@));
        vstd::seq_lib::to_multiset_len(views(history@));
    }
    let ghost p = views(s@);
    if s.len() > KEEP {
        s.truncate(s.len() - KEEP);
        assert(views(s@) =~= doomed(p));
    } else {
        s.clear();
        assert(views(s@) =~= doomed(p));
    }
    s
}

/// `s` without the entries equal to `c`.
pub open spec fn spare(s: Seq<Seq<char>>, c: Seq<char>) -> Seq<Seq<char>>
    decreases s.len(),
{
    if s.len() == 0 {
        s
    } else if s.last() == c {
        spare(s.drop_last(), c)
    } else {
        spare(s.drop_last(), c).push(s.last())
    }
}

/// What `spare` leaves never holds the spared entry.
pub proof fn lemma_spare_excludes(s: Seq<Seq<char>>, c: Seq<char>)
    ensures
        !spare(s, c).contains(c),
    decreases s.len(),
{
    if s.len() > 0 {
        lemma_spare_excludes(s.drop_last(), c);
        let r = spare(s.drop_last(), c);
        if s.last() != c {
            assert forall|i: int| 0 <= i < r.push(s.last()).len() implies r.push(s.last())[i] != c by {
                if i < r.len() {
                    assert(r.push(s.last())[i] == r[i]);
                }
            }
        }
    }
}

/// The paths of `v` other than `c`, in order.
pub fn without(v: &Vec<String>, c: &str) -> (r: Vec<String>)
    ensures
        views(r@) == spare(views(v@), c@),
{
    let mut out: Vec<String> = Vec::new();
    let mut i: usize = 0;
    while i < v.len()
        invariant
            i <= v@.len(),
            views(out@) == spare(views(v@.take(i as int)), c@),
        decreases v@.len() - i,
    {
        assert(views(v@.take(i + 1)).drop_last() =~= views(v@.take(i as int)));
        let same = v[i].unicode_len() == c.unicode_len() && starts_with(v[i].as_str(), c);
        assert(same == (v@[i as int]@ == c@)) by {
            if v@[i as int]@ == c@ {
                assert(c@.subrange(0, c@.len() as int) =~= c@);
            }
            if same {
                assert(v@[i as int]@ =~= c@);
            }
        }
        if !same {
            let ghost before = views(out@);
            out.push(v[i].clone());
            assert(views(out@) =~= before.push(v@[i as int]@));
        }
        i = i + 1;
    }
    assert(v@.take(v@.len() as int) =~= v@);
    out
}

/// After a cleanup the history holds at most `KEEP` deployments, the kept ones
/// are the greatest in name order, and kept and removed together are the whole
/// history.
pub proof fn lemma_clean_keeps_newest(p: Seq<Seq<char>>)
    requires
        sorted(p),
    ensures
        kept(p).len() <= KEEP,
        doomed(p) + kept(p) == p,
        forall|i: int, j: int|
            0 <= i < doomed(p).len() && 0 <= j < kept(p).len() ==> lex_le(
                #[trigger] doomed(p)[i],
                #[trigger] kept(p)[j],
            ),
{
    assert(doomed(p) + kept(p) =~= p);
    if p.len() > KEEP {
        assert forall|i: int, j: int|
            0 <= i < doomed(p).len() && 0 <= j < kept(p).len() implies lex_le(
            #[trigger] doomed(p)[i],
            #[trigger] kept(p)[j],
        ) by {
            assert(doomed(p)[i] == p[i]);
            assert(kept(p)[j] == p[p.len() - KEEP + j]);
        }
    }
}

/// A rollback picks the second newest deployment in name order, and it fails
/// exactly when the history holds fewer than two.
pub proof fn lemma_rollback_second_newest(p: Seq<Seq<char>>, t: Seq<char>)
    requires
        sorted(p),
        p.len() >= 2,
        t == p[p.len() - 2],
    ensures
        forall|i: int| 0 <= i < p.len() - 2 ==> lex_le(#[trigger] p[i], t),
        lex_le(t, p.last()),
{
}

} // verus!

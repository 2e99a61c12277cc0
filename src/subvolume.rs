//! Reading a subvolume's id out of the filesystem tool's `subvolume show` report.
use vstd::prelude::*;
use crate::text::{has_prefix, lines_of, split_lines, starts_with, trim, trimmed};

verus! {

/// The label of the id line in a `subvolume show` report.
pub const ID_LABEL: &'static str = "Subvolume ID:";

/// Whether `p` occurs in `s`.
pub open spec fn contains_text(s: Seq<char>, p: Seq<char>) -> bool {
    exists|k: int| 0 <= k <= s.len() - p.len() && #[trigger] s.skip(k).take(p.len() as int) == p
}

/// What follows the first colon of `s` (nothing if it has none).
pub open spec fn after_colon(s: Seq<char>) -> Seq<char>
    decreases s.len(),
{
    if s.len() == 0 {
        s
    } else if s[0] == ':' {
        s.drop_first()
    } else {
        after_colon(s.drop_first())
    }
}

/// What comes before the first colon of `s` (all of it if it has none).
pub open spec fn before_colon(s: Seq<char>) -> Seq<char>
    decreases s.len(),
{
    if s.len() == 0 || s[0] == ':' {
        Seq::empty()
    } else {
        seq![s[0]] + before_colon(s.drop_first())
    }
}

/// The id that the first line holding the label gives: the text between that
/// line's first and second colons, trimmed.
pub open spec fn id_in_lines(ls: Seq<Seq<char>>) -> Option<Seq<char>>
    decreases ls.len(),
{
    if ls.len() == 0 {
        None
    } else if contains_text(ls[0], ID_LABEL@) {
        Some(trimmed(before_colon(after_colon(ls[0]))))
    } else {
        id_in_lines(ls.drop_first())
    }
}

pub open spec fn id_in_report(report: Seq<char>) -> Option<Seq<char>> {
    id_in_lines(lines_of(report))
}

/// Whether `p` occurs in `s`.
pub fn find_text(s: &str, p: &str) -> (r: bool)
    ensures
        r == contains_text(s@, p@),
{
    let n = s.unicode_len();
    let m = p.unicode_len();
    if m > n {
        return false;
    }
    if m == 0 {
        assert(s@.skip(0).take(0) =~= p@);
        return true;
    }
    let mut k: usize = 0;
    while k <= n - m
        invariant
            n == s@.len(),
            m == p@.len(),
            1 <= m <= n,
            forall|j: int| 0 <= j < k ==> #[trigger] s@.skip(j).take(m as int) != p@,
        decreases n - m + 1 - k,
    {
        let rest = s.substring_char(k, n);
        assert(rest@ =~= s@.skip(k as int));
        if starts_with(rest, p) {
            assert(s@.skip(k as int).take(m as int) =~= rest@.subrange(0, m as int));
            return true;
        }
        assert(s@.skip(k as int).take(m as int) =~= rest@.subrange(0, m as int));
        k = k + 1;
    }
    false
}

/// The text between the first and second colons of `s`.
pub fn colon_field(s: &str) -> (r: String)
    ensures
        r@ == before_colon(after_colon(s@)),
{
    let n = s.unicode_len();
    let mut i: usize = 0;
    assert(s@.skip(0) =~= s@);
    while i < n && s.get_char(i) != ':'
        invariant
            n == s@.len(),
            i <= n,
            after_colon(s@) == after_colon(s@.skip(i as int)),
        decreases n - i,
    {
        assert(s@.skip(i as int).drop_first() =~= s@.skip(i + 1));
        i = i + 1;
    }
    if i == n {
        assert(s@.skip(i as int) =~= Seq::<char>::empty());
        return String::new();
    }
    assert(s@.skip(i as int).drop_first() =~= s@.skip(i + 1));
    let start = i + 1;
    let mut j: usize = start;
    while j < n && s.get_char(j) != ':'
        invariant
            n == s@.len(),
            start <= j <= n,
            before_colon(s@.skip(start as int)) == s@.subrange(start as int, j as int)
                + before_colon(s@.skip(j as int)),
        decreases n - j,
    {
        assert(s@.skip(j as int).drop_first() =~= s@.skip(j + 1));
        assert(s@.subrange(start as int, j + 1) =~= s@.subrange(start as int, j as int) + seq![
            s@[j as int],
        ]);
        j = j + 1;
    }
    assert(before_colon(s@.skip(j as int)) =~= Seq::<char>::empty());
    assert(s@.subrange(start as int, j as int) + Seq::<char>::empty() =~= s@.subrange(
        start as int,
        j as int,
    ));
    s.substring_char(start, j).to_string()
}

/// The subvolume id in a `subvolume show` report, if a line gives one.
pub fn parse_subvolume_id(report: &str) -> (r: Option<String>)
    ensures
        r is Some <==> id_in_report(report@) is Some,
        r matches Some(id) ==> id@ == id_in_report(report@)->0,
{
    let lines = split_lines(report);
    let ghost ls = lines_of(report@);
    let mut i: usize = 0;
    assert(ls.skip(0) =~= ls);
    while i < lines.len()
        invariant
            i <= lines@.len(),
            crate::text::views(lines@) == ls,
            ls == lines_of(report@),
            id_in_lines(ls) == id_in_lines(ls.skip(i as int)),
        decreases lines@.len() - i,
    {
        let line = lines[i].as_str();
        assert(ls[i as int] == line@);
        if find_text(line, ID_LABEL) {
            assert(ls.skip(i as int)[0] == line@);
            let f = colon_field(line);
            let id = trim(f.as_str());
            assert(contains_text(ls.skip(i as int)[0], ID_LABEL@));
            assert(id_in_lines(ls.skip(i as int)) == Some(id@));
            return Some(id);
        }
        assert(ls.skip(i as int).drop_first() =~= ls.skip(i + 1));
        i = i + 1;
    }
    None
}

} // verus!

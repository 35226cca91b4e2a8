use vstd::prelude::*;
use crate::text::matches_at;

verus! {

pub open spec fn is_separator(c: char) -> bool {
    c == '/' || c == '.' || c == ':'
}

pub open spec fn no_separator(t: Seq<char>) -> bool {
    forall|j: int| 0 <= j < t.len() ==> !is_separator(#[trigger] t[j])
}

pub open spec fn git_suffix() -> Seq<char> {
    seq!['.', 'g', 'i', 't']
}

/// The name that the tail of `s` from position `i` on gives: the whole tail
/// when it holds no `/`, `.` or `:`; else, when it ends in `.git`, what comes
/// before that suffix if it is non-empty and holds none of them.
pub open spec fn name_at(s: Seq<char>, i: int) -> Option<Seq<char>> {
    let t = s.subrange(i, s.len() as int);
    if t.len() > 0 && no_separator(t) {
        Some(t)
    } else if t.len() > 4 && t.subrange(t.len() - 4, t.len() as int) == git_suffix()
        && no_separator(t.subrange(0, t.len() - 4)) {
        Some(t.subrange(0, t.len() - 4))
    } else {
        None
    }
}

/// The name given by the leftmost tail from position `i` on that gives one.
pub open spec fn name_from(s: Seq<char>, i: int) -> Option<Seq<char>>
    decreases s.len() - i,
{
    if i < 0 || i >= s.len() {
        None
    } else if name_at(s, i) is Some {
        name_at(s, i)
    } else {
        name_from(s, i + 1)
    }
}

/// The repository name of a clone URL.
pub open spec fn repository_name_of(url: Seq<char>) -> Option<Seq<char>> {
    name_from(url, 0)
}

fn free_of_separators(s: &str, from: usize, to: usize) -> (r: bool)
    requires
        from <= to <= s@.len(),
    ensures
        r == no_separator(s@.subrange(from as int, to as int)),
{
    let mut j: usize = from;
    while j < to
        invariant
            from <= j <= to <= s@.len(),
            no_separator(s@.subrange(from as int, j as int)),
        decreases to - j,
    {
        let c = s.get_char(j);
        if c == '/' || c == '.' || c == ':' {
            assert(s@.subrange(from as int, to as int)[j - from] == c);
            return false;
        }
        assert(s@.subrange(from as int, j + 1) =~= s@.subrange(from as int, j as int).push(c));
        j = j + 1;
    }
    true
}

fn name_end_at(s: &str, len: usize, i: usize) -> (r: Option<usize>)
    requires
        len == s@.len(),
        i < len,
    ensures
        r is Some <==> name_at(s@, i as int) is Some,
        r is Some ==> i < r->0 <= len && name_at(s@, i as int)->0 == s@.subrange(i as int, r->0 as int),
{
    let ghost t = s@.subrange(i as int, len as int);
    if free_of_separators(s, i, len) {
        return Some(len);
    }
    if len - i > 4 {
        let suffix = ".git";
        proof {
            reveal_strlit(".git");
            assert(suffix@ =~= git_suffix());
            assert(t.subrange(t.len() - 4, t.len() as int) =~= s@.subrange(len - 4, len as int));
            assert(t.subrange(0, t.len() - 4) =~= s@.subrange(i as int, len - 4));
        }
        if matches_at(s, len - 4, suffix) && free_of_separators(s, i, len - 4) {
            return Some(len - 4);
        }
    }
    None
}

/// Extracts the repository name from a clone URL (`git@host:org/repo.git`,
/// `https://host/org/repo`): the last component, without a `.git` suffix.
pub fn repository_name(url: &str) -> (r: Result<String, ()>)
    ensures
        r is Ok <==> repository_name_of(url@) is Some,
        r is Ok ==> r->Ok_0@ == repository_name_of(url@)->0,
{
    let len = url.unicode_len();
    let mut i: usize = 0;
    while i < len
        invariant
            i <= len,
            len == url@.len(),
            name_from(url@, 0) == name_from(url@, i as int),
        decreases len - i,
    {
        match name_end_at(url, len, i) {
            Some(e) => {
                return Ok(url.substring_char(i, e).to_owned());
            },
            None => {
                i = i + 1;
            },
        }
    }
    Err(())
}

} // verus!

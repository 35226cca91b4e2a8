use vstd::prelude::*;
use crate::text::{is_digit, matches_at, holds_at};

verus! {

/// The fixed start of every label under which local changes are stashed.
pub open spec fn tag_prefix() -> Seq<char> {
    seq!['g', 'u', 'd', '_', 'l', 'o', 'c', 'a', 'l', '_', 'c', 'h', 'a', 'n', 'g', 'e', 's', ':']
}

/// The label under which the local changes of branch `branch` are stashed.
pub open spec fn stash_tag(branch: Seq<char>) -> Seq<char> {
    tag_prefix() + branch
}

/// Two branches never share a stash label.
pub proof fn lemma_stash_tag_injective(a: Seq<char>, b: Seq<char>)
    ensures
        stash_tag(a) == stash_tag(b) ==> a == b,
{
    if stash_tag(a) == stash_tag(b) {
        let n = tag_prefix().len() as int;
        assert(a =~= stash_tag(a).subrange(n, stash_tag(a).len() as int));
        assert(b =~= stash_tag(b).subrange(n, stash_tag(b).len() as int));
    }
}

/// Builds the stash label of a branch.
pub fn stash_name_for_branch(branch_name: &str) -> (r: String)
    ensures
        r@ == stash_tag(branch_name@),
{
    let prefix = String::from_str("gud_local_changes:");
    proof {
        reveal_strlit("gud_local_changes:");
        assert(prefix@ =~= tag_prefix());
    }
    prefix.concat(branch_name)
}

/// One entry of `git stash list`: its reference (`stash@{N}`) and its
/// description (from `On ` to the end of the line).
pub struct Stash {
    pub reference: String,
    pub message: String,
}

impl Stash {
    pub open spec fn view_pair(&self) -> (Seq<char>, Seq<char>) {
        (self.reference@, self.message@)
    }
}

pub open spec fn stash_views(v: Seq<Stash>) -> Seq<(Seq<char>, Seq<char>)> {
    v.map_values(|x: Stash| x.view_pair())
}

pub open spec fn ref_open() -> Seq<char> {
    seq!['s', 't', 'a', 's', 'h', '@', '{']
}

pub open spec fn ref_close() -> Seq<char> {
    seq!['}', ':', ' ', 'O', 'n', ' ']
}

/// The number of consecutive decimal digits from position `j` on.
pub open spec fn digit_run(s: Seq<char>, j: int) -> nat
    decreases s.len() - j,
{
    if 0 <= j < s.len() && is_digit(s[j]) {
        1 + digit_run(s, j + 1)
    } else {
        0
    }
}

/// The position of the first line break from `i` on, or the end of the text.
pub open spec fn line_end(s: Seq<char>, i: int) -> int
    decreases s.len() - i,
{
    if i >= s.len() || i < 0 {
        s.len() as int
    } else if s[i] == '\n' {
        i
    } else {
        line_end(s, i + 1)
    }
}

/// Whether an entry `stash@{<digits>}: On ...` starts at position `i`.
pub open spec fn entry_at(s: Seq<char>, i: int) -> bool {
    holds_at(s, i, ref_open()) && digit_run(s, i + 7) > 0 && holds_at(s, i + 7 + digit_run(s, i + 7), ref_close())
}

/// The entries found by scanning from position `i` on: the leftmost entry,
/// whose description runs from its `On` to the end of its line, then those
/// after it.
pub open spec fn entries_from(s: Seq<char>, i: int) -> Seq<(Seq<char>, Seq<char>)>
    decreases s.len() - i,
    via entries_from_decreases
{
    if i < 0 || i >= s.len() {
        seq![]
    } else if entry_at(s, i) {
        let k = digit_run(s, i + 7) as int;
        let e = line_end(s, i + 10 + k);
        seq![(s.subrange(i, i + 8 + k), s.subrange(i + 10 + k, e))] + entries_from(s, e)
    } else {
        entries_from(s, i + 1)
    }
}

#[via_fn]
proof fn entries_from_decreases(s: Seq<char>, i: int) {
    if 0 <= i < s.len() && entry_at(s, i) {
        lemma_line_end_bounds(s, i + 10 + digit_run(s, i + 7));
    }
}

/// The entries of a `git stash list` listing, in order.
pub open spec fn stash_entries(s: Seq<char>) -> Seq<(Seq<char>, Seq<char>)> {
    entries_from(s, 0)
}

proof fn lemma_line_end_bounds(s: Seq<char>, i: int)
    requires
        0 <= i <= s.len(),
    ensures
        i <= line_end(s, i) <= s.len(),
        forall|j: int| i <= j < line_end(s, i) ==> s[j] != '\n',
    decreases s.len() - i,
{
    if i < s.len() && s[i] != '\n' {
        lemma_line_end_bounds(s, i + 1);
    }
}

fn digit_at(s: &str, m: usize) -> (r: bool)
    requires
        m < s@.len(),
    ensures
        r == is_digit(s@[m as int]),
{
    let c = s.get_char(m);
    '0' <= c && c <= '9'
}

fn digits_from(s: &str, len: usize, j: usize) -> (k: usize)
    requires
        len == s@.len(),
        j <= len,
    ensures
        k == digit_run(s@, j as int),
        j + k <= len,
{
    let mut m: usize = j;
    while m < len && digit_at(s, m)
        invariant
            j <= m <= len,
            len == s@.len(),
            digit_run(s@, j as int) == (m - j) + digit_run(s@, m as int),
        decreases len - m,
    {
        m = m + 1;
    }
    m - j
}

fn find_line_end(s: &str, len: usize, i: usize) -> (e: usize)
    requires
        len == s@.len(),
        i <= len,
    ensures
        e == line_end(s@, i as int),
{
    let mut m: usize = i;
    while m < len && s.get_char(m) != '\n'
        invariant
            i <= m <= len,
            len == s@.len(),
            line_end(s@, i as int) == line_end(s@, m as int),
        decreases len - m,
    {
        m = m + 1;
    }
    m
}

fn entry_digits_at(s: &str, len: usize, i: usize) -> (r: Option<usize>)
    requires
        len == s@.len(),
        i < len,
    ensures
        r is Some <==> entry_at(s@, i as int),
        r is Some ==> r->0 == digit_run(s@, i + 7) && i + 13 + r->0 <= len,
{
    let open = "stash@{";
    let close = "}: On ";
    proof {
        reveal_strlit("stash@{");
        reveal_strlit("}: On ");
        assert(open@ =~= ref_open());
        assert(close@ =~= ref_close());
    }
    if !matches_at(s, i, open) {
        return None;
    }
    let k = digits_from(s, len, i + 7);
    if k == 0 {
        return None;
    }
    if !matches_at(s, i + 7 + k, close) {
        return None;
    }
    Some(k)
}

/// Reads the output of `git stash list`. Every occurrence of
/// `stash@{<digits>}: On ` gives one entry, the leftmost on its line first;
/// what does not have that shape is passed over.
pub fn parse_stash_list(output: &str) -> (r: Vec<Stash>)
    ensures
        stash_views(r@) == stash_entries(output@),
{
    let len = output.unicode_len();
    let mut out: Vec<Stash> = Vec::new();
    let mut i: usize = 0;
    while i < len
        invariant
            i <= len,
            len == output@.len(),
            stash_views(out@) + entries_from(output@, i as int) == stash_entries(output@),
        decreases len - i,
    {
        let ghost s = output@;
        match entry_digits_at(output, len, i) {
            Some(k) => {
                let m = i + 10 + k;
                let e = find_line_end(output, len, m);
                proof {
                    lemma_line_end_bounds(s, m as int);
                }
                let reference = output.substring_char(i, i + 8 + k).to_owned();
                let message = output.substring_char(m, e).to_owned();
                let ghost before = out@;
                out.push(Stash { reference, message });
                proof {
                    assert(stash_views(out@) =~= stash_views(before).push(
                        (s.subrange(i as int, i + 8 + k), s.subrange(m as int, e as int)),
                    ));
                    assert(entries_from(s, i as int) == seq![(s.subrange(i as int, i + 8 + k), s.subrange(m as int, e as int))] + entries_from(s, e as int));
                    assert(stash_views(out@) + entries_from(s, e as int) =~= stash_views(before) + entries_from(s, i as int));
                }
                i = e;
            },
            None => {
                i = i + 1;
            },
        }
    }
    assert(entries_from(output@, i as int) =~= seq![]);
    assert(stash_views(out@) + seq![] =~= stash_views(out@));
    out
}

/// What git writes at the end of the description of a stash pushed with
/// message `tag`: `: ` and the message itself.
pub open spec fn label_suffix(tag: Seq<char>) -> Seq<char> {
    seq![':', ' '] + tag
}

/// Whether an entry was stashed under exactly the label `tag`: its
/// description (`On <branch>: <message>`) ends with `: ` and `tag`. A branch
/// name holds no `:`, so the label of `feat` is not that of `feat-x`.
pub open spec fn labelled(entry: (Seq<char>, Seq<char>), tag: Seq<char>) -> bool {
    holds_at(entry.1, entry.1.len() - label_suffix(tag).len(), label_suffix(tag))
}

pub open spec fn free_of_colon(b: Seq<char>) -> bool {
    forall|i: int| 0 <= i < b.len() ==> b[i] != ':'
}

/// A stash pushed for branch `a` (its description is whatever git puts
/// first, then `: ` and the label of `a`) carries the label of branch `b`
/// exactly when `a` and `b` are the same branch, even when one name starts
/// the other.
pub proof fn lemma_label_owned(reference: Seq<char>, head: Seq<char>, a: Seq<char>, b: Seq<char>)
    requires
        free_of_colon(a),
        free_of_colon(b),
    ensures
        labelled((reference, head + label_suffix(stash_tag(a))), stash_tag(b)) <==> a == b,
{
    let d = head + label_suffix(stash_tag(a));
    let sb = label_suffix(stash_tag(b));
    let n = d.len() as int;
    let m = sb.len() as int;
    assert(sb.len() == b.len() + 20);
    assert(d.len() == head.len() + a.len() + 20);
    if a == b {
        assert(d.subrange(n - m, n) =~= sb);
    } else if labelled((reference, d), stash_tag(b)) {
        let sub = d.subrange(n - m, n);
        assert(sub == sb);
        if b.len() > a.len() {
            let p = n - a.len() - 1;
            assert(d[p] == ':');
            let q = p - (n - m);
            assert(sub[q] == d[p]);
            assert(sb[q] == b[q - 20]);
        } else if b.len() < a.len() {
            let q = m - b.len() - 1;
            assert(sb[q] == ':');
            assert(sub[q] == d[n - m + q]);
            assert(d[n - m + q] == a[a.len() - b.len() - 1]);
        } else {
            assert(a =~= d.subrange(n - a.len(), n));
            assert(b =~= sb.subrange(m - b.len(), m));
            assert(d.subrange(n - a.len(), n) =~= sub.subrange(m - b.len(), m));
        }
    }
}

/// Whether a description ends with `: ` followed by `tag`.
pub fn has_label(message: &str, tag: &str) -> (r: bool)
    ensures
        r == holds_at(message@, message@.len() - label_suffix(tag@).len(), label_suffix(tag@)),
{
    let suffix = String::from_str(": ").concat(tag);
    proof {
        reveal_strlit(": ");
        assert(suffix@ =~= label_suffix(tag@));
    }
    let ml = message.unicode_len();
    let sl = suffix.unicode_len();
    if sl > ml {
        return false;
    }
    matches_at(message, ml - sl, suffix.as_str())
}

/// Finds the first entry stashed under exactly the label `tag`.
pub fn find_stash(stashes: &Vec<Stash>, tag: &str) -> (r: Option<usize>)
    ensures
        r is Some ==> r->0 < stashes@.len() && labelled(stashes@[r->0 as int].view_pair(), tag@),
        forall|j: int|
            0 <= j < stashes@.len() && (r is None || j < r->0) ==> !labelled(
                #[trigger] stashes@[j].view_pair(),
                tag@,
            ),
{
    let mut i: usize = 0;
    while i < stashes.len()
        invariant
            i <= stashes@.len(),
            forall|j: int| 0 <= j < i ==> !labelled(#[trigger] stashes@[j].view_pair(), tag@),
        decreases stashes@.len() - i,
    {
        if has_label(stashes[i].message.as_str(), tag) {
            return Some(i);
        }
        i = i + 1;
    }
    None
}

} // verus!

use vstd::prelude::*;

verus! {

/// The characters with the Unicode property White_Space.
pub open spec fn is_white_space(c: char) -> bool {
    let u = c as u32;
    (0x9 <= u && u <= 0xd) || u == 0x20 || u == 0x85 || u == 0xa0 || u == 0x1680 || (0x2000 <= u && u
        <= 0x200a) || u == 0x2028 || u == 0x2029 || u == 0x202f || u == 0x205f || u == 0x3000
}

/// A text without its leading white space.
pub open spec fn trim_start_of(s: Seq<char>) -> Seq<char>
    decreases s.len(),
{
    if s.len() > 0 && is_white_space(s[0]) {
        trim_start_of(s.drop_first())
    } else {
        s
    }
}

/// A text without its trailing white space.
pub open spec fn trim_end_of(s: Seq<char>) -> Seq<char>
    decreases s.len(),
{
    if s.len() > 0 && is_white_space(s.last()) {
        trim_end_of(s.drop_last())
    } else {
        s
    }
}

/// A text without its leading and trailing white space.
pub open spec fn trim_of(s: Seq<char>) -> Seq<char> {
    trim_end_of(trim_start_of(s))
}

/// Relies on `str::trim`: the text without leading and trailing
/// whitespace, whitespace being the Unicode property White_Space.
#[verifier::external_body]
pub(crate) fn trimmed(s: &str) -> (r: String)
    ensures
        r@ == trim_of(s@),
{
    s.trim().to_owned()
}

pub open spec fn is_digit(c: char) -> bool {
    '0' <= c && c <= '9'
}

pub open spec fn all_digits(s: Seq<char>) -> bool {
    forall|i: int| 0 <= i < s.len() ==> is_digit(#[trigger] s[i])
}

/// The number written by a run of decimal digits.
pub open spec fn decimal_value(s: Seq<char>) -> nat
    decreases s.len(),
{
    if s.len() == 0 {
        0
    } else {
        decimal_value(s.drop_last()) * 10 + (s.last() as nat - '0' as nat) as nat
    }
}

/// The digits of a count as `usize`'s parser reads them: an optional `+`,
/// then at least one decimal digit.
pub open spec fn count_digits(s: Seq<char>) -> Seq<char> {
    if s.len() > 0 && s[0] == '+' {
        s.drop_first()
    } else {
        s
    }
}

/// The count that a text denotes, if it denotes one that fits in `usize`.
pub open spec fn count_of(s: Seq<char>) -> Option<nat> {
    let d = count_digits(s);
    if d.len() > 0 && all_digits(d) && decimal_value(d) <= usize::MAX {
        Some(decimal_value(d))
    } else {
        None
    }
}

proof fn lemma_decimal_monotone(s: Seq<char>, k: int)
    requires
        all_digits(s),
        0 <= k <= s.len(),
    ensures
        decimal_value(s.subrange(0, k)) <= decimal_value(s),
    decreases s.len() - k,
{
    if k < s.len() {
        lemma_decimal_monotone(s, k + 1);
        let t = s.subrange(0, k + 1);
        assert(t.drop_last() =~= s.subrange(0, k));
        assert(is_digit(s[k]));
    } else {
        assert(s.subrange(0, k) =~= s);
    }
}

/// Reads a non-negative count such as `git rev-list --count` prints,
/// as `usize`'s parser reads it.
pub fn parse_count(s: &str) -> (r: Option<usize>)
    ensures
        r is Some <==> count_of(s@) is Some,
        r is Some ==> r->0 as nat == count_of(s@)->0,
{
    let len = s.unicode_len();
    let mut start: usize = 0;
    if len > 0 && s.get_char(0) == '+' {
        start = 1;
    }
    let ghost d = count_digits(s@);
    assert(d =~= s@.subrange(start as int, len as int));
    if start >= len {
        return None;
    }
    let mut acc: usize = 0;
    let mut i: usize = start;
    while i < len
        invariant
            start <= i <= len,
            len == s@.len(),
            d == s@.subrange(start as int, len as int),
            d == count_digits(s@),
            d.len() > 0,
            all_digits(d.subrange(0, i - start)),
            acc as nat == decimal_value(d.subrange(0, i - start)),
        decreases len - i,
    {
        let c = s.get_char(i);
        if c < '0' || c > '9' {
            assert(d[i - start] == s@[i as int]);
            assert(!is_digit(d[i - start]));
            assert(!all_digits(d));
            assert(count_of(s@) is None);
            return None;
        }
        let v: usize = (c as u32 - '0' as u32) as usize;
        assert(d[i - start] == c);
        assert(d.subrange(0, i + 1 - start).drop_last() =~= d.subrange(0, i - start));
        if acc > (usize::MAX - v) / 10 {
            proof {
                assert(acc * 10 + v > usize::MAX) by (nonlinear_arith)
                    requires
                        acc > (usize::MAX - v) / 10,
                        v <= 9,
                ;
                let t = d.subrange(0, i + 1 - start);
                assert(t.last() == c);
                assert(decimal_value(t) == decimal_value(t.drop_last()) * 10 + v);
                assert(all_digits(t));
                if all_digits(d) {
                    lemma_decimal_monotone(d, i + 1 - start);
                    assert(decimal_value(d) > usize::MAX);
                }
                assert(count_of(s@) is None);
            }
            return None;
        }
        proof {
            assert(acc * 10 + v <= usize::MAX) by (nonlinear_arith)
                requires
                    acc <= (usize::MAX - v) / 10,
                    v <= 9,
            ;
        }
        acc = acc * 10 + v;
        i = i + 1;
        assert(all_digits(d.subrange(0, i - start)));
    }
    assert(d.subrange(0, len - start) =~= d);
    Some(acc)
}

/// Whether `hay` holds `needle` at position `at`.
pub open spec fn holds_at(hay: Seq<char>, at: int, needle: Seq<char>) -> bool {
    0 <= at && at + needle.len() <= hay.len() && hay.subrange(at, at + needle.len()) == needle
}

/// Compares `needle` with `hay` from position `at` on.
pub fn matches_at(hay: &str, at: usize, needle: &str) -> (r: bool)
    ensures
        r == holds_at(hay@, at as int, needle@),
{
    let hl = hay.unicode_len();
    let nl = needle.unicode_len();
    if at > hl || nl > hl - at {
        return false;
    }
    let mut j: usize = 0;
    while j < nl
        invariant
            j <= nl,
            hl == hay@.len(),
            nl == needle@.len(),
            at + nl <= hl,
            forall|k: int| 0 <= k < j ==> hay@[at + k] == needle@[k],
        decreases nl - j,
    {
        if hay.get_char(at + j) != needle.get_char(j) {
            assert(hay@.subrange(at as int, at + nl)[j as int] != needle@[j as int]);
            return false;
        }
        j = j + 1;
    }
    assert(hay@.subrange(at as int, at + nl) =~= needle@);
    true
}

} // verus!

//! Small verified string primitives shared by the header and host
//! handling: trimming, equality, ASCII case folding, and a first-index
//! search.  Header and identifier values handled by this layer are
//! ASCII in practice, so whitespace and case folding are defined over
//! the ASCII range.

use vstd::prelude::*;

verus! {

/// The whitespace characters `trim` strips.
pub open spec fn is_ws(c: char) -> bool {
    c == ' ' || c == '\t' || c == '\n' || c == '\r' || c == '\u{b}' || c == '\u{c}'
}

pub open spec fn trim_start_spec(s: Seq<char>) -> Seq<char>
    decreases s.len(),
{
    if s.len() > 0 && is_ws(s[0]) {
        trim_start_spec(s.drop_first())
    } else {
        s
    }
}

pub open spec fn trim_end_spec(s: Seq<char>) -> Seq<char>
    decreases s.len(),
{
    if s.len() > 0 && is_ws(s.last()) {
        trim_end_spec(s.drop_last())
    } else {
        s
    }
}

/// `s` without leading and trailing whitespace.
pub open spec fn trimmed(s: Seq<char>) -> Seq<char> {
    trim_end_spec(trim_start_spec(s))
}

/// The ASCII lowercase counterpart of one character.
pub open spec fn lower_char(c: char) -> char {
    if 'A' <= c && c <= 'Z' {
        (((c as u32) + 32) as u8) as char
    } else {
        c
    }
}

/// The ASCII lowercase counterpart of a string.
pub open spec fn lower_seq(s: Seq<char>) -> Seq<char> {
    s.map_values(|c: char| lower_char(c))
}

/// Whether `c` is one of the whitespace characters `trim` strips.
pub fn is_ws_char(c: char) -> (r: bool)
    ensures
        r == is_ws(c),
{
    c == ' ' || c == '\t' || c == '\n' || c == '\r' || c == '\u{b}' || c == '\u{c}'
}

fn lower_char_exec(c: char) -> (r: char)
    ensures
        r == lower_char(c),
{
    if 'A' <= c && c <= 'Z' {
        let code = (c as u32) + 32;
        (code as u8) as char
    } else {
        c
    }
}

/// Character-exact string equality.
pub fn str_eq(a: &str, b: &str) -> (r: bool)
    ensures
        r == (a@ == b@),
{
    let n = a.unicode_len();
    if n != b.unicode_len() {
        return false;
    }
    let mut i: usize = 0;
    while i < n
        invariant
            i <= n,
            n == a@.len(),
            n == b@.len(),
            forall|j: int| 0 <= j < i ==> a@[j] == b@[j],
        decreases n - i,
    {
        if a.get_char(i) != b.get_char(i) {
            return false;
        }
        i = i + 1;
    }
    proof {
        assert(a@ =~= b@);
    }
    true
}

/// Equality up to ASCII case.
pub fn str_eq_ignore_case(a: &str, b: &str) -> (r: bool)
    ensures
        r == (lower_seq(a@) == lower_seq(b@)),
{
    let n = a.unicode_len();
    if n != b.unicode_len() {
        proof {
            assert(lower_seq(a@).len() == a@.len());
            assert(lower_seq(b@).len() == b@.len());
        }
        return false;
    }
    let mut i: usize = 0;
    while i < n
        invariant
            i <= n,
            n == a@.len(),
            n == b@.len(),
            forall|j: int| 0 <= j < i ==> lower_char(a@[j]) == lower_char(b@[j]),
        decreases n - i,
    {
        if lower_char_exec(a.get_char(i)) != lower_char_exec(b.get_char(i)) {
            proof {
                assert(lower_seq(a@)[i as int] == lower_char(a@[i as int]));
                assert(lower_seq(b@)[i as int] == lower_char(b@[i as int]));
            }
            return false;
        }
        i = i + 1;
    }
    proof {
        assert(lower_seq(a@) =~= lower_seq(b@));
    }
    true
}

/// Whether `a` ends in `suffix`, up to ASCII case.
pub fn ends_with_ignore_case(a: &str, suffix: &str) -> (r: bool)
    ensures
        r == (a@.len() >= suffix@.len() && lower_seq(a@).subrange(
            a@.len() - suffix@.len(),
            a@.len() as int,
        ) == lower_seq(suffix@)),
{
    let n = a.unicode_len();
    let m = suffix.unicode_len();
    if n < m {
        return false;
    }
    let offset = n - m;
    let mut i: usize = 0;
    while i < m
        invariant
            i <= m,
            m <= n,
            offset == n - m,
            n == a@.len(),
            m == suffix@.len(),
            forall|j: int| 0 <= j < i ==> lower_char(a@[offset + j]) == lower_char(suffix@[j]),
        decreases m - i,
    {
        if lower_char_exec(a.get_char(offset + i)) != lower_char_exec(suffix.get_char(i)) {
            proof {
                let j = i as int;
                assert(lower_seq(a@)[offset + j] == lower_char(a@[offset + j]));
                assert(lower_seq(suffix@)[j] == lower_char(suffix@[j]));
                if lower_seq(a@).subrange(a@.len() - suffix@.len(), a@.len() as int) == lower_seq(
                    suffix@,
                ) {
                    assert(lower_seq(a@).subrange(a@.len() - suffix@.len(), a@.len() as int)[j]
                        == lower_seq(suffix@)[j]);
                }
            }
            return false;
        }
        i = i + 1;
    }
    proof {
        assert(lower_seq(a@).subrange(a@.len() - suffix@.len(), a@.len() as int) =~= lower_seq(
            suffix@,
        ));
    }
    true
}

/// The first position of `c` in `s`, if any.
pub fn find_char(s: &str, c: char) -> (r: Option<usize>)
    ensures
        match r {
            Some(i) => i < s@.len() && s@[i as int] == c && forall|j: int| 0 <= j < i ==> s@[j]
                != c,
            None => forall|j: int| 0 <= j < s@.len() ==> s@[j] != c,
        },
{
    let n = s.unicode_len();
    let mut i: usize = 0;
    while i < n
        invariant
            i <= n,
            n == s@.len(),
            forall|j: int| 0 <= j < i ==> s@[j] != c,
        decreases n - i,
    {
        if s.get_char(i) == c {
            return Some(i);
        }
        i = i + 1;
    }
    None
}

/// `s` without leading and trailing whitespace, as a borrowed slice.
pub fn trim_of<'a>(s: &'a str) -> (r: &'a str)
    ensures
        r@ == trimmed(s@),
{
    let n = s.unicode_len();
    let mut start: usize = 0;
    proof {
        assert(s@.subrange(0, n as int) =~= s@);
    }
    while start < n && is_ws_char(s.get_char(start))
        invariant
            start <= n,
            n == s@.len(),
            trim_start_spec(s@) == trim_start_spec(s@.subrange(start as int, n as int)),
        decreases n - start,
    {
        proof {
            let sub = s@.subrange(start as int, n as int);
            assert(sub[0] == s@[start as int]);
            assert(sub.drop_first() =~= s@.subrange(start as int + 1, n as int));
        }
        start = start + 1;
    }
    proof {
        let sub = s@.subrange(start as int, n as int);
        assert(trim_start_spec(sub) == sub);
    }
    let mut end: usize = n;
    while end > start && is_ws_char(s.get_char(end - 1))
        invariant
            start <= end <= n,
            n == s@.len(),
            trim_start_spec(s@) == s@.subrange(start as int, n as int),
            trim_end_spec(s@.subrange(start as int, n as int)) == trim_end_spec(
                s@.subrange(start as int, end as int),
            ),
        decreases end,
    {
        proof {
            let sub = s@.subrange(start as int, end as int);
            assert(sub.last() == s@[end - 1]);
            assert(sub.drop_last() =~= s@.subrange(start as int, end as int - 1));
        }
        end = end - 1;
    }
    proof {
        let sub = s@.subrange(start as int, end as int);
        assert(trim_end_spec(sub) == sub);
    }
    s.substring_char(start, end)
}

/// Case folding commutes with taking a subrange.
pub proof fn lemma_lower_subrange(s: Seq<char>, i: int, j: int)
    requires
        0 <= i <= j <= s.len(),
    ensures
        lower_seq(s.subrange(i, j)) =~= lower_seq(s).subrange(i, j),
{
    assert forall|k: int| 0 <= k < j - i implies lower_seq(s.subrange(i, j))[k] == lower_seq(
        s,
    ).subrange(i, j)[k] by {
        assert(s.subrange(i, j)[k] == s[i + k]);
    }
}

/// Relies on `String::push`: it appends exactly the given character
/// to the end of the string.
#[verifier::external_body]
pub(crate) fn push_char(s: &mut String, c: char)
    ensures
        final(s)@ == old(s)@.push(c),
{
    s.push(c);
}

/// The whitespace-separated tokens of an expression.
pub open spec fn split_ws(s: Seq<char>) -> Seq<Seq<char>>
    decreases s.len(),
    via split_ws_decreases
{
    if s.len() == 0 {
        Seq::empty()
    } else if is_ws(s[0]) {
        split_ws(s.drop_first())
    } else if exists|i: int| 0 <= i < s.len() && is_ws(s[i]) {
        let i = choose|i: int|
            0 <= i < s.len() && is_ws(s[i]) && forall|j: int| 0 <= j < i ==> !is_ws(s[j]);
        seq![s.subrange(0, i)] + split_ws(s.subrange(i + 1, s.len() as int))
    } else {
        seq![s]
    }
}

#[via_fn]
proof fn split_ws_decreases(s: Seq<char>) {
    if s.len() > 0 && !is_ws(s[0]) && exists|i: int| 0 <= i < s.len() && is_ws(s[i]) {
        let w = choose|i: int| 0 <= i < s.len() && is_ws(s[i]);
        lemma_min_ws_index(s, w);
    }
}

proof fn lemma_min_ws_index(s: Seq<char>, w: int)
    requires
        0 <= w < s.len(),
        is_ws(s[w]),
    ensures
        exists|i: int|
            0 <= i < s.len() && is_ws(s[i]) && (forall|j: int| 0 <= j < i ==> !is_ws(s[j])),
    decreases w,
{
    if forall|j: int| 0 <= j < w ==> !is_ws(s[j]) {
    } else {
        let j = choose|j: int| 0 <= j < w && is_ws(s[j]);
        lemma_min_ws_index(s, j);
    }
}

pub fn find_ws(s: &str) -> (r: Option<usize>)
    ensures
        (match r {
            Some(i) => i < s@.len() && is_ws(s@[i as int]) && forall|j: int|
                0 <= j < i ==> !is_ws(s@[j]),
            None => forall|j: int| 0 <= j < s@.len() ==> !is_ws(s@[j]),
        }),
{
    let n = s.unicode_len();
    let mut i: usize = 0;
    while i < n
        invariant
            i <= n,
            n == s@.len(),
            forall|j: int| 0 <= j < i ==> !is_ws(s@[j]),
        decreases n - i,
    {
        if is_ws_char(s.get_char(i)) {
            return Some(i);
        }
        i = i + 1;
    }
    None
}

pub fn split_ws_exec(s: &str) -> (r: Vec<String>)
    ensures
        r@.map_values(|t: String| t@) == split_ws(s@),
    decreases s@.len(),
{
    let n = s.unicode_len();
    if n == 0 {
        let r: Vec<String> = Vec::new();
        proof {
            assert(r@.map_values(|t: String| t@) =~= split_ws(s@));
        }
        return r;
    }
    if is_ws_char(s.get_char(0)) {
        let rest = s.substring_char(1, n);
        proof {
            assert(rest@ =~= s@.drop_first());
        }
        return split_ws_exec(rest);
    }
    match find_ws(s) {
        None => {
            let mut r: Vec<String> = Vec::new();
            r.push(s.to_owned());
            proof {
                assert(r@.map_values(|t: String| t@) =~= seq![s@]);
            }
            r
        },
        Some(i) => {
            proof {
                let first = choose|j: int|
                    0 <= j < s@.len() && is_ws(s@[j]) && forall|l: int|
                        0 <= l < j ==> !is_ws(s@[l]);
                assert(first == i as int);
            }
            let token = s.substring_char(0, i);
            let rest = s.substring_char(i + 1, n);
            let mut tail = split_ws_exec(rest);
            let ghost tail0 = tail@;
            let mut r: Vec<String> = Vec::new();
            r.push(token.to_owned());
            r.append(&mut tail);
            proof {
                assert(r@ =~= seq![r@[0]] + tail0);
                assert(r@.map_values(|t: String| t@) =~= seq![token@] + tail0.map_values(
                    |t: String| t@,
                ));
            }
            r
        },
    }
}

/// The tokens joined with single spaces.
pub open spec fn join_spaces(tokens: Seq<Seq<char>>) -> Seq<char>
    decreases tokens.len(),
{
    if tokens.len() == 0 {
        Seq::empty()
    } else if tokens.len() == 1 {
        tokens[0]
    } else {
        join_spaces(tokens.drop_last()) + seq![' '] + tokens.last()
    }
}

} // verus!

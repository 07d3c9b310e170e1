//! Trusted-host checking for inbound requests.
//!
//! A request's `Host` header is normalized — the port stripped,
//! whitespace trimmed, letters folded to lower case — and held against
//! the configured patterns: a literal host, the lone wildcard `*`, or
//! a `*.suffix` pattern that accepts the suffix itself and every
//! subdomain of it.

use vstd::prelude::*;

use crate::strings::{
    ends_with_ignore_case, find_char, lemma_lower_subrange, lower_char, lower_seq,
    str_eq_ignore_case, trim_of, trimmed,
};

verus! {

pub open spec fn has_colon(s: Seq<char>) -> bool {
    exists|i: int| 0 <= i < s.len() && s[i] == ':'
}

pub open spec fn first_colon(s: Seq<char>) -> int {
    choose|i: int|
        0 <= i < s.len() && s[i] == ':' && forall|j: int| 0 <= j < i ==> s[j] != ':'
}

/// The host header up to the first `:`, where its port begins.
pub open spec fn host_part(s: Seq<char>) -> Seq<char> {
    if has_colon(s) {
        s.subrange(0, first_colon(s))
    } else {
        s
    }
}

/// The comparable form of a host header: port stripped, trimmed,
/// case folded.
pub open spec fn normalized_host(s: Seq<char>) -> Seq<char> {
    lower_seq(trimmed(host_part(s)))
}

/// Whether one configured pattern accepts the normalized host.
pub open spec fn pattern_allows(pattern: Seq<char>, nhost: Seq<char>) -> bool {
    let cand = lower_seq(trimmed(pattern));
    if cand.len() == 0 {
        false
    } else if cand == seq!['*'] {
        true
    } else if cand.len() >= 2 && cand[0] == '*' && cand[1] == '.' {
        let suffix = cand.subrange(2, cand.len() as int);
        nhost == suffix || (nhost.len() > suffix.len() && nhost.subrange(
            nhost.len() - suffix.len() - 1,
            nhost.len() as int,
        ) == seq!['.'] + suffix)
    } else {
        nhost == cand
    }
}

/// Whether the host header is accepted: it must normalize to
/// something non-empty and some configured pattern must accept it.
pub open spec fn host_allowed_spec(host: Seq<char>, patterns: Seq<Seq<char>>) -> bool {
    normalized_host(host).len() > 0 && exists|p: int|
        0 <= p < patterns.len() && pattern_allows(patterns[p], normalized_host(host))
}

/// Folding to lower case cannot produce `*`, `.` or `:`, so a
/// character equals such a symbol exactly when its folded form does.
proof fn lemma_lower_symbol(c: char, d: char)
    requires
        !('A' <= d && d <= 'Z'),
        !('a' <= d && d <= 'z'),
    ensures
        (lower_char(c) == d) <==> (c == d),
{
}

/// Checks a request's `Host` header value against the configured
/// trusted-host patterns.
pub fn host_allowed(host: &str, allowed_hosts: &Vec<String>) -> (r: bool)
    ensures
        r == host_allowed_spec(host@, allowed_hosts@.map_values(|p: String| p@)),
{
    let ghost patterns = allowed_hosts@.map_values(|p: String| p@);
    let bare = match find_char(host, ':') {
        Some(i) => {
            proof {
                let first = first_colon(host@);
                assert(host@[i as int] == ':' && forall|j: int| 0 <= j < i ==> host@[j] != ':');
                assert(first == i as int);
            }
            host.substring_char(0, i)
        },
        None => host,
    };
    let nhost = trim_of(bare);
    let nlen = nhost.unicode_len();
    if nlen == 0 {
        proof {
            assert(normalized_host(host@).len() == 0);
        }
        return false;
    }
    let count = allowed_hosts.len();
    let mut p: usize = 0;
    while p < count
        invariant
            p <= count,
            count == patterns.len(),
            patterns == allowed_hosts@.map_values(|q: String| q@),
            nhost@ == trimmed(host_part(host@)),
            nlen == nhost@.len(),
            nlen > 0,
            forall|q: int| 0 <= q < p ==> !pattern_allows(patterns[q], normalized_host(host@)),
        decreases count - p,
    {
        let ghost nh = normalized_host(host@);
        let pattern = &allowed_hosts[p];
        proof {
            assert(patterns[p as int] == pattern@);
        }
        let cand = trim_of(pattern.as_str());
        let ghost candl = lower_seq(cand@);
        let clen = cand.unicode_len();
        if clen == 0 {
            proof {
                assert(candl.len() == 0);
            }
        } else if str_eq_ignore_case(cand, "*") {
            proof {
                reveal_strlit("*");
                assert(lower_seq("*"@) =~= seq!['*']);
                assert(pattern_allows(patterns[p as int], nh));
            }
            return true;
        } else if clen >= 2 && cand.get_char(0) == '*' && cand.get_char(1) == '.' {
            proof {
                assert(candl[0] == lower_char(cand@[0]));
                assert(candl[1] == lower_char(cand@[1]));
                lemma_lower_symbol(cand@[0], '*');
                lemma_lower_symbol(cand@[1], '.');
            }
            let suffix = cand.substring_char(2, clen);
            proof {
                lemma_lower_subrange(cand@, 2, cand@.len() as int);
            }
            if str_eq_ignore_case(nhost, suffix) {
                proof {
                    assert(nh == candl.subrange(2, candl.len() as int));
                    assert(pattern_allows(patterns[p as int], nh));
                }
                return true;
            }
            let slen = suffix.unicode_len();
            let mut matched = false;
            if nlen > slen && ends_with_ignore_case(nhost, suffix) {
                if nhost.get_char(nlen - slen - 1) == '.' {
                    matched = true;
                }
            }
            if matched {
                proof {
                    let sl = candl.subrange(2, candl.len() as int);
                    assert(nh[nh.len() - sl.len() - 1] == lower_char(
                        nhost@[nh.len() - sl.len() - 1],
                    ));
                    lemma_lower_symbol(nhost@[nh.len() - sl.len() - 1], '.');
                    assert(nh.subrange(nh.len() - sl.len(), nh.len() as int) == lower_seq(
                        suffix@,
                    ));
                    assert(nh.subrange(nh.len() - sl.len() - 1, nh.len() as int) =~= seq!['.']
                        + sl);
                    assert(pattern_allows(patterns[p as int], nh));
                }
                return true;
            }
            proof {
                let sl = candl.subrange(2, candl.len() as int);
                assert(nh != sl);
                if nh.len() > sl.len() && nh.subrange(nh.len() - sl.len() - 1, nh.len() as int)
                    == seq!['.'] + sl {
                    let tail = nh.subrange(nh.len() - sl.len() - 1, nh.len() as int);
                    assert(tail[0] == '.');
                    assert(nh[nh.len() - sl.len() - 1] == tail[0]);
                    assert forall|k: int| 0 <= k < sl.len() implies nh.subrange(
                        nh.len() - sl.len(),
                        nh.len() as int,
                    )[k] == sl[k] by {
                        assert(tail[k + 1] == (seq!['.'] + sl)[k + 1]);
                    }
                    assert(nh.subrange(nh.len() - sl.len(), nh.len() as int) =~= sl);
                    assert(nh[nh.len() - sl.len() - 1] == '.');
                    lemma_lower_symbol(nhost@[nh.len() - sl.len() - 1], '.');
                    assert(false);
                }
                assert(!pattern_allows(patterns[p as int], nh));
            }
        } else {
            proof {
                reveal_strlit("*");
                assert(lower_seq("*"@) =~= seq!['*']);
                if candl == seq!['*'] {
                    assert(candl.len() == 1);
                    assert(candl[0] == lower_char(cand@[0]));
                    lemma_lower_symbol(cand@[0], '*');
                    assert(false);
                }
                if candl.len() >= 2 && candl[0] == '*' && candl[1] == '.' {
                    assert(candl[0] == lower_char(cand@[0]));
                    assert(candl[1] == lower_char(cand@[1]));
                    lemma_lower_symbol(cand@[0], '*');
                    lemma_lower_symbol(cand@[1], '.');
                    assert(false);
                }
            }
            if str_eq_ignore_case(nhost, cand) {
                proof {
                    assert(pattern_allows(patterns[p as int], nh));
                }
                return true;
            }
            proof {
                assert(!pattern_allows(patterns[p as int], nh));
            }
        }
        p = p + 1;
    }
    false
}

} // verus!

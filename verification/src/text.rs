//! Small text helpers shared by the request handlers: blank-or-value
//! normalization, phone-number digit extraction, paging-limit
//! clamping, and the notification-event aliases.

use vstd::prelude::*;

use crate::strings::{is_ws_char, join_spaces, push_char, split_ws, split_ws_exec, str_eq, trim_end_spec, trim_of, trimmed};

verus! {

/// The trimmed value when it is non-empty, else nothing.
pub open spec fn non_empty_spec(value: Option<&str>) -> Option<Seq<char>> {
    match value {
        Some(s) => {
            if trimmed(s@).len() > 0 {
                Some(trimmed(s@))
            } else {
                None
            }
        },
        None => None,
    }
}

/// Keeps only a non-blank trimmed value.
pub fn non_empty_opt(value: Option<&str>) -> (r: Option<String>)
    ensures
        (match (r, non_empty_spec(value)) {
            (Some(out), Some(expected)) => out@ == expected,
            (None, None) => true,
            _ => false,
        }),
{
    match value {
        Some(s) => {
            let t = trim_of(s);
            if t.unicode_len() > 0 {
                Some(t.to_owned())
            } else {
                None
            }
        },
        None => None,
    }
}

pub open spec fn is_ascii_digit(c: char) -> bool {
    '0' <= c && c <= '9'
}

/// A phone number normalized to its digits alone.
pub open spec fn digits_of(s: Seq<char>) -> Seq<char> {
    s.filter(|c: char| is_ascii_digit(c))
}

/// Keeps the digits of a free-form phone value; nothing when no digit
/// is left.
pub fn normalize_whatsapp_phone(value: &str) -> (r: Option<String>)
    ensures
        (match r {
            Some(out) => digits_of(value@).len() > 0 && out@ == digits_of(value@),
            None => digits_of(value@).len() == 0,
        }),
{
    let n = value.unicode_len();
    let mut digits = String::new();
    let mut i: usize = 0;
    proof {
        reveal(Seq::filter);
        assert(value@.subrange(0, 0) =~= Seq::<char>::empty());
        assert(Seq::<char>::empty().filter(|c: char| is_ascii_digit(c)) =~= Seq::<char>::empty());
    }
    while i < n
        invariant
            i <= n,
            n == value@.len(),
            digits@ == digits_of(value@.subrange(0, i as int)),
        decreases n - i,
    {
        let c = value.get_char(i);
        proof {
            reveal(Seq::filter);
            assert(value@.subrange(0, i + 1).drop_last() =~= value@.subrange(0, i as int));
            assert(value@.subrange(0, i + 1).last() == value@[i as int]);
        }
        if '0' <= c && c <= '9' {
            crate::strings::push_char(&mut digits, c);
        }
        i = i + 1;
    }
    proof {
        assert(value@.subrange(0, n as int) =~= value@);
    }
    if digits.as_str().unicode_len() == 0 {
        None
    } else {
        Some(digits)
    }
}

/// The paging limit actually used: the default replaces a
/// non-positive request, and the result is clamped to the bounds.
pub open spec fn coerced_limit(value: i64, default: i64, minimum: i64, maximum: i64) -> i64 {
    let parsed = if value <= 0 {
        default
    } else {
        value
    };
    if parsed < minimum {
        minimum
    } else if parsed > maximum {
        maximum
    } else {
        parsed
    }
}

/// Replaces a non-positive requested limit with the default and
/// clamps the result between `minimum` and `maximum`.
pub fn coerce_limit(value: i64, default: i64, minimum: i64, maximum: i64) -> (r: i64)
    requires
        minimum <= maximum,
    ensures
        r == coerced_limit(value, default, minimum, maximum),
{
    let parsed = if value <= 0 {
        default
    } else {
        value
    };
    if parsed < minimum {
        minimum
    } else if parsed > maximum {
        maximum
    } else {
        parsed
    }
}

/// Whether a stored rule trigger fires for an event: an exact match,
/// or one of the legacy trigger aliases still accepted for the
/// renamed collection and application events.
pub open spec fn event_matches_spec(event_type: Seq<char>, trigger: Seq<char>) -> bool {
    event_type == trigger || (event_type == "collection_overdue"@ && trigger
        == "rent_overdue_1d"@) || (event_type == "collection_escalated"@ && trigger
        == "rent_overdue_7d"@) || (event_type == "application_status_changed"@ && trigger
        == "application_received"@)
}

/// Whether `event_type` fires rules stored under `trigger`.
pub fn event_matches_trigger(event_type: &str, trigger: &str) -> (r: bool)
    ensures
        r == event_matches_spec(event_type@, trigger@),
{
    if str_eq(event_type, trigger) {
        return true;
    }
    (str_eq(event_type, "collection_overdue") && str_eq(trigger, "rent_overdue_1d")) || (str_eq(
        event_type,
        "collection_escalated",
    ) && str_eq(trigger, "rent_overdue_7d")) || (str_eq(event_type, "application_status_changed")
        && str_eq(trigger, "application_received"))
}

/// The XML escape of one character.
pub open spec fn xml_escaped_char(c: char) -> Seq<char> {
    if c == '&' {
        seq!['&', 'a', 'm', 'p', ';']
    } else if c == '<' {
        seq!['&', 'l', 't', ';']
    } else if c == '>' {
        seq!['&', 'g', 't', ';']
    } else if c == '"' {
        seq!['&', 'q', 'u', 'o', 't', ';']
    } else if c == '\'' {
        seq!['&', 'a', 'p', 'o', 's', ';']
    } else {
        seq![c]
    }
}

/// The XML escape of a string, character by character.
pub open spec fn xml_escaped(s: Seq<char>) -> Seq<char>
    decreases s.len(),
{
    if s.len() == 0 {
        Seq::empty()
    } else {
        xml_escaped(s.drop_last()) + xml_escaped_char(s.last())
    }
}

/// Escapes the five XML-special characters.
pub fn xml_escape(s: &str) -> (r: String)
    ensures
        r@ == xml_escaped(s@),
{
    let n = s.unicode_len();
    let mut out = String::new();
    let mut i: usize = 0;
    proof {
        assert(s@.subrange(0, 0) =~= Seq::<char>::empty());
    }
    while i < n
        invariant
            i <= n,
            n == s@.len(),
            out@ == xml_escaped(s@.subrange(0, i as int)),
        decreases n - i,
    {
        let c = s.get_char(i);
        proof {
            assert(s@.subrange(0, i + 1).drop_last() =~= s@.subrange(0, i as int));
            assert(s@.subrange(0, i + 1).last() == s@[i as int]);
        }
        let ghost before = out@;
        if c == '&' {
            push_char(&mut out, '&');
            push_char(&mut out, 'a');
            push_char(&mut out, 'm');
            push_char(&mut out, 'p');
            push_char(&mut out, ';');
        } else if c == '<' {
            push_char(&mut out, '&');
            push_char(&mut out, 'l');
            push_char(&mut out, 't');
            push_char(&mut out, ';');
        } else if c == '>' {
            push_char(&mut out, '&');
            push_char(&mut out, 'g');
            push_char(&mut out, 't');
            push_char(&mut out, ';');
        } else if c == '"' {
            push_char(&mut out, '&');
            push_char(&mut out, 'q');
            push_char(&mut out, 'u');
            push_char(&mut out, 'o');
            push_char(&mut out, 't');
            push_char(&mut out, ';');
        } else if c == '\'' {
            push_char(&mut out, '&');
            push_char(&mut out, 'a');
            push_char(&mut out, 'p');
            push_char(&mut out, 'o');
            push_char(&mut out, 's');
            push_char(&mut out, ';');
        } else {
            push_char(&mut out, c);
        }
        proof {
            assert(out@ =~= before + xml_escaped_char(s@[i as int]));
        }
        i = i + 1;
    }
    proof {
        assert(s@.subrange(0, n as int) =~= s@);
    }
    out
}

/// A string with all whitespace runs collapsed to single spaces.
pub open spec fn joined_words(s: Seq<char>) -> Seq<char> {
    join_spaces(split_ws(s))
}

/// How many characters of a too-long preview survive before the
/// ellipsis.
pub open spec fn preview_keep(max_chars: nat) -> nat {
    if max_chars >= 3 {
        (max_chars - 3) as nat
    } else {
        0
    }
}

/// The preview of a message: whitespace collapsed; when it runs past
/// `max_chars`, it is cut, stripped of a trailing space, and given an
/// ellipsis.
pub open spec fn trim_preview_spec(s: Seq<char>, max_chars: nat) -> Seq<char> {
    let normalized = joined_words(s);
    if normalized.len() <= max_chars {
        normalized
    } else {
        trim_end_spec(normalized.subrange(0, preview_keep(max_chars) as int)) + seq![
            '.',
            '.',
            '.',
        ]
    }
}

fn join_words(value: &str) -> (r: String)
    ensures
        r@ == joined_words(value@),
{
    let words = split_ws_exec(value);
    let ghost tokens = split_ws(value@);
    let mut out = String::new();
    let count = words.len();
    let mut i: usize = 0;
    proof {
        assert(tokens.subrange(0, 0) =~= Seq::<Seq<char>>::empty());
    }
    while i < count
        invariant
            i <= count,
            count == words@.len(),
            words@.map_values(|t: String| t@) == tokens,
            out@ == join_spaces(tokens.subrange(0, i as int)),
        decreases count - i,
    {
        proof {
            assert(tokens.subrange(0, i + 1).drop_last() =~= tokens.subrange(0, i as int));
            assert(tokens.subrange(0, i + 1).last() == tokens[i as int]);
            assert(tokens[i as int] == words@[i as int]@);
        }
        if i > 0 {
            push_char(&mut out, ' ');
        }
        out.append(words[i].as_str());
        i = i + 1;
    }
    proof {
        assert(tokens.subrange(0, count as int) =~= tokens);
    }
    out
}

/// Strips trailing whitespace from the first `keep` characters of
/// `s`, in place of the indices.
fn trimmed_end_index(s: &str, keep: usize) -> (end: usize)
    requires
        keep <= s@.len(),
    ensures
        end <= keep,
        s@.subrange(0, end as int) == trim_end_spec(s@.subrange(0, keep as int)),
{
    let mut end = keep;
    while end > 0 && is_ws_char(s.get_char(end - 1))
        invariant
            end <= keep,
            keep <= s@.len(),
            trim_end_spec(s@.subrange(0, keep as int)) == trim_end_spec(
                s@.subrange(0, end as int),
            ),
        decreases end,
    {
        proof {
            let sub = s@.subrange(0, end as int);
            assert(sub.last() == s@[end - 1]);
            assert(sub.drop_last() =~= s@.subrange(0, end as int - 1));
        }
        end = end - 1;
    }
    proof {
        let sub = s@.subrange(0, end as int);
        assert(trim_end_spec(sub) == sub);
    }
    end
}

/// Collapses whitespace and cuts the result to `max_chars`
/// characters, ellipsis included.
pub fn trim_preview(value: &str, max_chars: usize) -> (r: String)
    ensures
        r@ == trim_preview_spec(value@, max_chars as nat),
{
    let normalized = join_words(value);
    let total = normalized.as_str().unicode_len();
    if total <= max_chars {
        return normalized;
    }
    let keep = if max_chars >= 3 {
        max_chars - 3
    } else {
        0
    };
    let end = trimmed_end_index(normalized.as_str(), keep);
    let kept = normalized.as_str().substring_char(0, end);
    let r = kept.to_owned().concat("...");
    proof {
        reveal_strlit("...");
        assert("..."@ =~= seq!['.', '.', '.']);
    }
    r
}

/// The cleaned title: the trimmed value when non-blank, cut to 180
/// characters with no trailing space; else the fallback.
pub open spec fn clean_title_spec(value: Option<&str>, fallback: Seq<char>) -> Seq<char> {
    let candidate = match value {
        Some(v) => trimmed(v@),
        None => Seq::empty(),
    };
    if candidate.len() == 0 {
        fallback
    } else if candidate.len() > 180 {
        trim_end_spec(candidate.subrange(0, 180))
    } else {
        candidate
    }
}

/// Trims a proposed title, falls back when it is blank, and cuts an
/// overlong one to 180 characters.
pub fn clean_title(value: Option<&str>, fallback: &str) -> (r: String)
    ensures
        r@ == clean_title_spec(value, fallback@),
{
    let candidate = match value {
        Some(v) => trim_of(v),
        None => "",
    };
    proof {
        reveal_strlit("");
        assert(""@ =~= Seq::<char>::empty());
        assert(trimmed(Seq::<char>::empty()) =~= Seq::<char>::empty());
    }
    let n = candidate.unicode_len();
    if n == 0 {
        return fallback.to_owned();
    }
    if n > 180 {
        let end = trimmed_end_index(candidate, 180);
        return candidate.substring_char(0, end).to_owned();
    }
    candidate.to_owned()
}

/// What `str::to_lowercase` maps a string to: a function of the
/// characters alone.
pub uninterp spec fn lower_of(s: Seq<char>) -> Seq<char>;

/// What `char::to_uppercase` expands one character to: a function of
/// the character alone.
pub uninterp spec fn upper_char_of(c: char) -> Seq<char>;

/// Relies on `str::to_lowercase`: the Unicode lowercase mapping of
/// the text, depending on its characters alone.
#[verifier::external_body]
fn lowercase_std(s: &str) -> (r: String)
    ensures
        r@ == lower_of(s@),
        s@.len() == 0 ==> r@.len() == 0,
{
    s.to_lowercase()
}

/// Relies on `char::to_uppercase`: the Unicode uppercase expansion of
/// one character, depending on it alone.
#[verifier::external_body]
fn uppercase_char_std(c: char) -> (r: String)
    ensures
        r@ == upper_char_of(c),
{
    c.to_uppercase().collect()
}

/// One word in title case: the first character uppercased, the rest
/// lowercased.
pub open spec fn title_word(w: Seq<char>) -> Seq<char> {
    if w.len() == 0 {
        Seq::empty()
    } else {
        upper_char_of(w[0]) + lower_of(w.subrange(1, w.len() as int))
    }
}

/// The whole value in title case, word by word, joined with single
/// spaces.
pub open spec fn title_case_spec(s: Seq<char>) -> Seq<char> {
    join_spaces(split_ws(s).map_values(|w: Seq<char>| title_word(w)))
}

/// Title-cases each whitespace-separated word of the value.
pub fn to_title_case(value: &str) -> (r: String)
    ensures
        r@ == title_case_spec(value@),
{
    let words = split_ws_exec(value);
    let ghost titled = split_ws(value@).map_values(|w: Seq<char>| title_word(w));
    let mut out = String::new();
    let count = words.len();
    let mut i: usize = 0;
    proof {
        assert(titled.subrange(0, 0) =~= Seq::<Seq<char>>::empty());
    }
    while i < count
        invariant
            i <= count,
            count == words@.len(),
            words@.map_values(|t: String| t@) == split_ws(value@),
            titled == split_ws(value@).map_values(|w: Seq<char>| title_word(w)),
            out@ == join_spaces(titled.subrange(0, i as int)),
        decreases count - i,
    {
        proof {
            assert(titled.subrange(0, i + 1).drop_last() =~= titled.subrange(0, i as int));
            assert(titled.subrange(0, i + 1).last() == titled[i as int]);
            assert(split_ws(value@)[i as int] == words@[i as int]@);
        }
        if i > 0 {
            push_char(&mut out, ' ');
        }
        let word = &words[i];
        let wn = word.as_str().unicode_len();
        if wn > 0 {
            let first = word.as_str().get_char(0);
            let rest = word.as_str().substring_char(1, wn);
            proof {
                assert(rest@ =~= word@.subrange(1, word@.len() as int));
            }
            let upper = uppercase_char_std(first);
            out.append(upper.as_str());
            let lower = lowercase_std(rest);
            out.append(lower.as_str());
        }
        i = i + 1;
    }
    proof {
        assert(titled.subrange(0, count as int) =~= titled);
    }
    out
}

/// Whether `needle` occurs inside `haystack`.
pub open spec fn contains_sub(haystack: Seq<char>, needle: Seq<char>) -> bool {
    exists|i: int|
        0 <= i <= haystack.len() - needle.len() && #[trigger] haystack.subrange(
            i,
            i + needle.len(),
        ) == needle
}

fn contains_sub_exec(haystack: &str, needle: &str) -> (r: bool)
    ensures
        r == contains_sub(haystack@, needle@),
{
    let hn = haystack.unicode_len();
    let nn = needle.unicode_len();
    if nn > hn {
        return false;
    }
    let last_start = hn - nn;
    let mut i: usize = 0;
    while i <= last_start
        invariant
            i <= last_start + 1,
            last_start == hn - nn,
            nn <= hn,
            hn == haystack@.len(),
            nn == needle@.len(),
            forall|k: int|
                0 <= k < i ==> #[trigger] haystack@.subrange(k, k + needle@.len()) != needle@,
        decreases last_start + 1 - i,
    {
        let mut j: usize = 0;
        let mut matched = true;
        while j < nn
            invariant
                j <= nn,
                i + nn <= hn,
                hn == haystack@.len(),
                nn == needle@.len(),
                matched ==> forall|l: int| 0 <= l < j ==> haystack@[i + l] == needle@[l],
                !matched ==> haystack@.subrange(i as int, i + needle@.len()) != needle@,
            decreases nn - j,
        {
            if haystack.get_char(i + j) != needle.get_char(j) {
                proof {
                    if haystack@.subrange(i as int, i + needle@.len()) == needle@ {
                        assert(haystack@.subrange(i as int, i + needle@.len())[j as int]
                            == needle@[j as int]);
                    }
                }
                matched = false;
                j = nn;
            } else {
                j = j + 1;
            }
        }
        if matched {
            proof {
                assert(haystack@.subrange(i as int, i + needle@.len()) =~= needle@);
            }
            return true;
        }
        if i == last_start {
            return false;
        }
        i = i + 1;
    }
    false
}

/// Which agent a voice transcript routes to, by keyword groups
/// checked in a fixed order over the lowercased transcript.
pub open spec fn classify_spec(lower: Seq<char>) -> Seq<char> {
    if contains_sub(lower, "maintenance"@) || contains_sub(lower, "repair"@) || contains_sub(
        lower,
        "broken"@,
    ) || contains_sub(lower, "mantenimiento"@) || contains_sub(lower, "roto"@) {
        "maintenance-triage"@
    } else if contains_sub(lower, "payment"@) || contains_sub(lower, "rent"@) || contains_sub(
        lower,
        "pago"@,
    ) || contains_sub(lower, "alquiler"@) {
        "finance-agent"@
    } else if contains_sub(lower, "lease"@) || contains_sub(lower, "contract"@) || contains_sub(
        lower,
        "contrato"@,
    ) {
        "leasing-agent"@
    } else if contains_sub(lower, "guest"@) || contains_sub(lower, "check-in"@) || contains_sub(
        lower,
        "hu\u{e9}sped"@,
    ) {
        "guest-concierge"@
    } else {
        "supervisor"@
    }
}

/// Routes a voice transcript to the agent its keywords indicate.
pub fn classify_voice_intent(transcript: &str) -> (r: &'static str)
    ensures
        r@ == classify_spec(lower_of(transcript@)),
{
    let lower = lowercase_std(transcript);
    let l = lower.as_str();
    if contains_sub_exec(l, "maintenance") || contains_sub_exec(l, "repair") || contains_sub_exec(
        l,
        "broken",
    ) || contains_sub_exec(l, "mantenimiento") || contains_sub_exec(l, "roto") {
        "maintenance-triage"
    } else if contains_sub_exec(l, "payment") || contains_sub_exec(l, "rent") || contains_sub_exec(
        l,
        "pago",
    ) || contains_sub_exec(l, "alquiler") {
        "finance-agent"
    } else if contains_sub_exec(l, "lease") || contains_sub_exec(l, "contract")
        || contains_sub_exec(l, "contrato") {
        "leasing-agent"
    } else if contains_sub_exec(l, "guest") || contains_sub_exec(l, "check-in")
        || contains_sub_exec(l, "hu\u{e9}sped") {
        "guest-concierge"
    } else {
        "supervisor"
    }
}

/// The value stored under `key`, by first occurrence.
pub open spec fn lookup_value(pairs: Seq<(Seq<char>, Seq<char>)>, key: Seq<char>) -> Option<
    Seq<char>,
>
    decreases pairs.len(),
{
    if pairs.len() == 0 {
        None
    } else if pairs[0].0 == key {
        Some(pairs[0].1)
    } else {
        lookup_value(pairs.drop_first(), key)
    }
}

/// The trimmed value under `key`, when it is non-blank.
pub open spec fn pick_recipient(pairs: Seq<(Seq<char>, Seq<char>)>, key: Seq<char>) -> Option<
    Seq<char>,
> {
    match lookup_value(pairs, key) {
        Some(v) => {
            if trimmed(v).len() > 0 {
                Some(trimmed(v))
            } else {
                None
            }
        },
        None => None,
    }
}

/// The recipient address for an email dispatch, by key preference.
pub open spec fn email_recipient(pairs: Seq<(Seq<char>, Seq<char>)>) -> Seq<char> {
    match pick_recipient(pairs, "recipient_email"@) {
        Some(v) => v,
        None => match pick_recipient(pairs, "tenant_email"@) {
            Some(v) => v,
            None => match pick_recipient(pairs, "email"@) {
                Some(v) => v,
                None => match pick_recipient(pairs, "recipient"@) {
                    Some(v) => v,
                    None => match pick_recipient(pairs, "submitted_by_email"@) {
                        Some(v) => v,
                        None => Seq::empty(),
                    },
                },
            },
        },
    }
}

/// The recipient number for a phone-channel dispatch, by key
/// preference.
pub open spec fn phone_recipient(pairs: Seq<(Seq<char>, Seq<char>)>) -> Seq<char> {
    match pick_recipient(pairs, "recipient_phone"@) {
        Some(v) => v,
        None => match pick_recipient(pairs, "tenant_phone_e164"@) {
            Some(v) => v,
            None => match pick_recipient(pairs, "phone_e164"@) {
                Some(v) => v,
                None => match pick_recipient(pairs, "recipient"@) {
                    Some(v) => v,
                    None => match pick_recipient(pairs, "guest_phone_e164"@) {
                        Some(v) => v,
                        None => match pick_recipient(pairs, "submitted_by_phone"@) {
                            Some(v) => v,
                            None => Seq::empty(),
                        },
                    },
                },
            },
        },
    }
}

/// The recipient of one notification dispatch: email channels read
/// the email keys, every other channel the phone keys; empty when the
/// payload offers nothing usable.
pub open spec fn dispatch_recipient_spec(
    channel: Seq<char>,
    pairs: Seq<(Seq<char>, Seq<char>)>,
) -> Seq<char> {
    if channel == "email"@ {
        email_recipient(pairs)
    } else {
        phone_recipient(pairs)
    }
}

pub open spec fn pairs_view(payload: Seq<(String, String)>) -> Seq<(Seq<char>, Seq<char>)> {
    payload.map_values(|p: (String, String)| (p.0@, p.1@))
}

fn lookup_pair<'a>(payload: &'a Vec<(String, String)>, key: &str) -> (r: Option<&'a String>)
    ensures
        (match r {
            Some(v) => lookup_value(pairs_view(payload@), key@) == Some(v@),
            None => lookup_value(pairs_view(payload@), key@) is None,
        }),
{
    let n = payload.len();
    let mut i: usize = 0;
    proof {
        assert(pairs_view(payload@).subrange(0, n as int) =~= pairs_view(payload@));
    }
    while i < n
        invariant
            i <= n,
            n == payload@.len(),
            lookup_value(pairs_view(payload@), key@) == lookup_value(
                pairs_view(payload@).subrange(i as int, n as int),
                key@,
            ),
        decreases n - i,
    {
        let ghost pv = pairs_view(payload@);
        proof {
            assert(pv[i as int] == (payload@[i as int].0@, payload@[i as int].1@));
            assert(pv.subrange(i as int, n as int)[0] == pv[i as int]);
            assert(pv.subrange(i as int, n as int).drop_first() =~= pv.subrange(
                i + 1,
                n as int,
            ));
        }
        let entry = &payload[i];
        if str_eq(entry.0.as_str(), key) {
            return Some(&entry.1);
        }
        i = i + 1;
    }
    proof {
        assert(pairs_view(payload@).subrange(n as int, n as int) =~= Seq::<(
            Seq<char>,
            Seq<char>,
        )>::empty());
    }
    None
}

fn pick_recipient_exec(payload: &Vec<(String, String)>, key: &str) -> (r: Option<String>)
    ensures
        (match r {
            Some(v) => pick_recipient(pairs_view(payload@), key@) == Some(v@),
            None => pick_recipient(pairs_view(payload@), key@) is None,
        }),
{
    match lookup_pair(payload, key) {
        Some(value) => {
            let t = trim_of(value.as_str());
            if t.unicode_len() > 0 {
                Some(t.to_owned())
            } else {
                None
            }
        },
        None => None,
    }
}

/// Picks the recipient address or number for one dispatch from the
/// string fields of the notification payload, by the channel's key
/// preference order.
pub fn dispatch_recipient(channel: &str, payload: &Vec<(String, String)>) -> (r: String)
    ensures
        r@ == dispatch_recipient_spec(channel@, pairs_view(payload@)),
{
    if str_eq(channel, "email") {
        match pick_recipient_exec(payload, "recipient_email") {
            Some(v) => v,
            None => match pick_recipient_exec(payload, "tenant_email") {
                Some(v) => v,
                None => match pick_recipient_exec(payload, "email") {
                    Some(v) => v,
                    None => match pick_recipient_exec(payload, "recipient") {
                        Some(v) => v,
                        None => match pick_recipient_exec(payload, "submitted_by_email") {
                            Some(v) => v,
                            None => String::new(),
                        },
                    },
                },
            },
        }
    } else {
        match pick_recipient_exec(payload, "recipient_phone") {
            Some(v) => v,
            None => match pick_recipient_exec(payload, "tenant_phone_e164") {
                Some(v) => v,
                None => match pick_recipient_exec(payload, "phone_e164") {
                    Some(v) => v,
                    None => match pick_recipient_exec(payload, "recipient") {
                        Some(v) => v,
                        None => match pick_recipient_exec(payload, "guest_phone_e164") {
                            Some(v) => v,
                            None => match pick_recipient_exec(payload, "submitted_by_phone") {
                                Some(v) => v,
                                None => String::new(),
                            },
                        },
                    },
                },
            },
        }
    }
}

} // verus!

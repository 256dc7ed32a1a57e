use vstd::prelude::*;
use vstd::string::StringSliceAdditionalSpecFns;
use vstd::utf8::{encode_utf8, is_char_boundary};
use crate::text::{byte_len, byte_slice, contains_char, first_chars, lemma_str_bytes, spec_text_between};

verus! {

/// The byte span of one capture group, when the group took part in the match.
pub type GroupSpan = Option<(usize, usize)>;

/// The pattern of a key/value pair that carries a credential: the key, an
/// optional quote, `:` or `=`, and a value of at least eight characters,
/// quoted or bare.
pub const CREDENTIAL_PATTERN: &'static str = r#"(?i)(token|api[_-]?key|password|secret|user[_-]?key|bearer|credential)["']?\s*[:=]\s*(?:"([^"]{8,})"|'([^']{8,})'|([a-zA-Z0-9_\-\.]{8,}))"#;

/// The successive non-overlapping matches of `pattern` in `haystack`, each as
/// the spans of all its capture groups (group 0 first), as the `regex`
/// crate finds them; `None` when the pattern does not compile.
pub uninterp spec fn regex_captures_of(pattern: Seq<char>, haystack: Seq<char>) -> Option<
    Seq<Seq<GroupSpan>>,
>;

/// A span lies within `bytes`, starting and ending on character boundaries.
pub open spec fn span_ok(bytes: Seq<u8>, span: GroupSpan) -> bool {
    match span {
        Some((a, b)) => a <= b <= bytes.len() && is_char_boundary(bytes, a as int)
            && is_char_boundary(bytes, b as int),
        None => true,
    }
}

/// Where a span starts (0 for an absent span).
pub open spec fn span_start(span: GroupSpan) -> int {
    match span {
        Some((a, _)) => a as int,
        None => 0,
    }
}

/// Where a span ends (0 for an absent span).
pub open spec fn span_end(span: GroupSpan) -> int {
    match span {
        Some((_, b)) => b as int,
        None => 0,
    }
}

/// The start of the whole match of a capture.
pub open spec fn match_start(groups: Seq<GroupSpan>) -> int {
    span_start(groups[0])
}

/// The end of the whole match of a capture.
pub open spec fn match_end(groups: Seq<GroupSpan>) -> int {
    span_end(groups[0])
}

/// Captures as the `regex` crate documents them: each has its whole match
/// as group 0, every span lies on character boundaries of the haystack,
/// and the matches come in order without overlapping.
pub open spec fn captures_ok(bytes: Seq<u8>, caps: Seq<Seq<GroupSpan>>) -> bool {
    &&& forall|i: int| 0 <= i < caps.len() ==> (#[trigger] caps[i]).len() >= 1 && caps[i][0] is Some
    &&& forall|i: int, k: int|
        0 <= i < caps.len() && 0 <= k < caps[i].len() ==> span_ok(bytes, #[trigger] caps[i][k])
    &&& forall|i: int, j: int|
        0 <= i < j < caps.len() ==> match_end(#[trigger] caps[i]) <= match_start(#[trigger] caps[j])
}

/// The view of a list of captures.
pub open spec fn captures_view(v: Seq<Vec<GroupSpan>>) -> Seq<Seq<GroupSpan>> {
    v.map_values(|g: Vec<GroupSpan>| g@)
}

/// Runs `regex::Regex::new` on `pattern` and `Regex::captures_iter` on
/// `haystack`, converting each capture to the byte spans of its groups.
/// Claimed: the result is the named `regex_captures_of`, and, as the crate
/// documents for `Captures::get` and `Match`, group 0 is always present,
/// spans fall on character boundaries within the haystack, and successive
/// matches do not overlap. Nothing is claimed about which spans match.
#[verifier::external_body]
fn regex_captures(pattern: &str, haystack: &str) -> (r: Option<Vec<Vec<GroupSpan>>>)
    ensures
        match r {
            Some(v) => regex_captures_of(pattern@, haystack@) == Some(captures_view(v@))
                && captures_ok(haystack.spec_bytes(), captures_view(v@)),
            None => regex_captures_of(pattern@, haystack@) is None,
        },
{
    let re = regex::Regex::new(pattern).ok()?;
    Some(
        re.captures_iter(haystack).map(
            |caps| (0..caps.len()).map(|k| caps.get(k).map(|m| (m.start(), m.end()))).collect(),
        ).collect(),
    )
}

/// The text of group `k` of a capture, when it took part in the match.
pub open spec fn group_text(bytes: Seq<u8>, groups: Seq<GroupSpan>, k: int) -> Option<Seq<char>> {
    if 0 <= k < groups.len() && groups[k] is Some {
        Some(spec_text_between(bytes, span_start(groups[k]), span_end(groups[k])))
    } else {
        None
    }
}

/// The text that replaces one credential match: the key, then `=` when the
/// match used `=` (else `: `), the first four characters of the value and
/// the redaction mark.
pub open spec fn spec_redaction(bytes: Seq<u8>, groups: Seq<GroupSpan>) -> Seq<char> {
    let key = match group_text(bytes, groups, 1) {
        Some(t) => t,
        None => Seq::empty(),
    };
    let value = match group_text(bytes, groups, 2) {
        Some(t) => t,
        None => match group_text(bytes, groups, 3) {
            Some(t) => t,
            None => match group_text(bytes, groups, 4) {
                Some(t) => t,
                None => Seq::empty(),
            },
        },
    };
    let prefix = value.take(if 4 < value.len() { 4 } else { value.len() as int });
    let whole = match group_text(bytes, groups, 0) {
        Some(t) => t,
        None => Seq::empty(),
    };
    if whole.contains('=') {
        key + "="@ + prefix + "*[REDACTED]"@
    } else {
        key + ": "@ + prefix + "*[REDACTED]"@
    }
}

/// Where the text before capture `n` starts: the end of the previous match.
pub open spec fn prev_end(caps: Seq<Seq<GroupSpan>>, n: int) -> int {
    if n <= 0 {
        0
    } else {
        match_end(caps[n - 1])
    }
}

/// The output up to and including the replacement of capture `n - 1`.
pub open spec fn spec_redacted_upto(bytes: Seq<u8>, caps: Seq<Seq<GroupSpan>>, n: int) -> Seq<
    char,
>
    decreases n,
{
    if n <= 0 {
        Seq::empty()
    } else {
        spec_redacted_upto(bytes, caps, n - 1) + spec_text_between(
            bytes,
            prev_end(caps, n - 1),
            match_start(caps[n - 1]),
        ) + spec_redaction(bytes, caps[n - 1])
    }
}

/// `bytes` with every capture replaced by its redaction.
pub open spec fn spec_redacted(bytes: Seq<u8>, caps: Seq<Seq<GroupSpan>>) -> Seq<char> {
    spec_redacted_upto(bytes, caps, caps.len() as int) + spec_text_between(
        bytes,
        prev_end(caps, caps.len() as int),
        bytes.len() as int,
    )
}

/// The text of group `k`, when present.
fn group_str<'a>(input: &'a str, groups: &Vec<GroupSpan>, k: usize) -> (r: Option<&'a str>)
    requires
        forall|j: int| 0 <= j < groups@.len() ==> span_ok(input.spec_bytes(), #[trigger] groups@[j]),
    ensures
        match r {
            Some(t) => group_text(input.spec_bytes(), groups@, k as int) == Some(t@),
            None => group_text(input.spec_bytes(), groups@, k as int) is None,
        },
{
    if k < groups.len() {
        match groups[k] {
            Some((a, b)) => {
                assert(span_ok(input.spec_bytes(), groups@[k as int]));
                Some(byte_slice(input, a, b))
            },
            None => None,
        }
    } else {
        None
    }
}

/// The replacement text for one credential match.
pub fn redaction(input: &str, groups: &Vec<GroupSpan>) -> (r: String)
    requires
        forall|j: int| 0 <= j < groups@.len() ==> span_ok(input.spec_bytes(), #[trigger] groups@[j]),
    ensures
        r@ == spec_redaction(input.spec_bytes(), groups@),
{
    let key = match group_str(input, groups, 1) {
        Some(t) => t,
        None => "",
    };
    let value = match group_str(input, groups, 2) {
        Some(t) => t,
        None => match group_str(input, groups, 3) {
            Some(t) => t,
            None => match group_str(input, groups, 4) {
                Some(t) => t,
                None => "",
            },
        },
    };
    proof {
        reveal_strlit("");
    }
    let prefix = first_chars(value, 4);
    let whole = match group_str(input, groups, 0) {
        Some(t) => t,
        None => "",
    };
    let separator = if contains_char(whole, '=') {
        "="
    } else {
        ": "
    };
    String::from_str(key).concat(separator).concat(prefix.as_str()).concat("*[REDACTED]")
}

/// `input` with every capture replaced by its redaction.
pub fn redact_captures(input: &str, caps: &Vec<Vec<GroupSpan>>) -> (r: String)
    requires
        captures_ok(input.spec_bytes(), captures_view(caps@)),
    ensures
        r@ == spec_redacted(input.spec_bytes(), captures_view(caps@)),
{
    let ghost bytes = input.spec_bytes();
    let ghost cv = captures_view(caps@);
    proof {
        lemma_str_bytes(input);
    }
    let mut out = String::new();
    let mut last: usize = 0;
    let n = caps.len();
    for i in 0..n
        invariant
            n == caps@.len(),
            cv == captures_view(caps@),
            bytes == input.spec_bytes(),
            captures_ok(bytes, cv),
            is_char_boundary(bytes, 0),
            last as int == prev_end(cv, i as int),
            last <= bytes.len(),
            is_char_boundary(bytes, last as int),
            out@ == spec_redacted_upto(bytes, cv, i as int),
    {
        let groups = &caps[i];
        assert(cv[i as int] == groups@);
        assert(groups@.len() >= 1 && groups@[0] is Some);
        assert(span_ok(bytes, cv[i as int][0]));
        let (start, end) = groups[0].unwrap();
        assert(last <= start) by {
            if i > 0 {
                assert(match_end(cv[i - 1]) <= match_start(cv[i as int]));
            }
        }
        let gap = byte_slice(input, last, start);
        out.append(gap);
        assert forall|j: int| 0 <= j < groups@.len() implies span_ok(bytes, #[trigger] groups@[j]) by {
            assert(span_ok(bytes, cv[i as int][j]));
        }
        let rep = redaction(input, groups);
        out.append(rep.as_str());
        last = end;
    }
    let total = byte_len(input);
    let tail = byte_slice(input, last, total);
    out.append(tail);
    out
}

/// `text` with every credential-looking key/value pair redacted; `text`
/// itself when the pattern does not compile.
pub open spec fn spec_scrub(text: Seq<char>) -> Seq<char> {
    match regex_captures_of(CREDENTIAL_PATTERN@, text) {
        Some(caps) => spec_redacted(encode_utf8(text), caps),
        None => text,
    }
}

/// `input` with every credential-looking key/value pair redacted: the key
/// stays, the value is cut to its first four characters and marked
/// `*[REDACTED]`. Text without such pairs is returned unchanged; so is all
/// text if the pattern does not compile.
pub fn scrub_credentials(input: &str) -> (r: String)
    ensures
        r@ == spec_scrub(input@),
{
    match regex_captures(CREDENTIAL_PATTERN, input) {
        Some(caps) => redact_captures(input, &caps),
        None => String::from_str(input),
    }
}

/// Text in which the pattern finds nothing comes back unchanged.
pub proof fn lemma_scrub_without_match(text: Seq<char>)
    requires
        regex_captures_of(CREDENTIAL_PATTERN@, text) == Some(Seq::<Seq<GroupSpan>>::empty()),
    ensures
        spec_scrub(text) == text,
{
    let bytes = encode_utf8(text);
    vstd::utf8::encode_utf8_decode_utf8(text);
    assert(bytes.subrange(0, bytes.len() as int) == bytes);
    assert(spec_redacted_upto(bytes, Seq::<Seq<GroupSpan>>::empty(), 0) == Seq::<char>::empty());
}

} // verus!

use vstd::prelude::*;
use vstd::utf8::{
    decode_utf8, encode_utf8, encode_utf8_decode_utf8, encode_utf8_valid_utf8, is_char_boundary,
    is_char_boundary_iff_not_is_continuation_byte, is_char_boundary_start_end_of_seq, valid_utf8,
    valid_utf8_split, decode_utf8_split,
};

use vstd::string::StringSliceAdditionalSpecFns;

verus! {

/// Whether `c` has the Unicode `White_Space` property, the set that
/// `char::is_whitespace` tests: tab through carriage return, space, next
/// line, no-break space, ogham space mark, en quad through hair space, line
/// and paragraph separators, narrow no-break space, medium mathematical
/// space and ideographic space.
pub open spec fn char_is_whitespace(c: char) -> bool {
    let u = c as u32;
    ||| 0x09 <= u <= 0x0D
    ||| u == 0x20
    ||| u == 0x85
    ||| u == 0xA0
    ||| u == 0x1680
    ||| 0x2000 <= u <= 0x200A
    ||| u == 0x2028
    ||| u == 0x2029
    ||| u == 0x202F
    ||| u == 0x205F
    ||| u == 0x3000
}

/// Whether `c` is white space in the Unicode sense.
pub fn is_whitespace(c: char) -> (r: bool)
    ensures
        r == char_is_whitespace(c),
{
    let u = c as u32;
    (0x09 <= u && u <= 0x0D) || u == 0x20 || u == 0x85 || u == 0xA0 || u == 0x1680 || (0x2000 <= u
        && u <= 0x200A) || u == 0x2028 || u == 0x2029 || u == 0x202F || u == 0x205F || u == 0x3000
}

/// The decimal digit character for `d` in `0..10`.
pub open spec fn spec_digit(d: nat) -> char {
    seq!['0', '1', '2', '3', '4', '5', '6', '7', '8', '9'][d as int]
}

/// The decimal text of `n`, without sign or leading zeros.
pub open spec fn spec_decimal(n: nat) -> Seq<char>
    decreases n,
{
    if n < 10 {
        seq![spec_digit(n)]
    } else {
        spec_decimal(n / 10).push(spec_digit(n % 10))
    }
}

/// The text of one decimal digit.
fn digit_text(d: u64) -> (r: &'static str)
    requires
        d < 10,
    ensures
        r@ == seq![spec_digit(d as nat)],
{
    proof {
        reveal_strlit("0");
        reveal_strlit("1");
        reveal_strlit("2");
        reveal_strlit("3");
        reveal_strlit("4");
        reveal_strlit("5");
        reveal_strlit("6");
        reveal_strlit("7");
        reveal_strlit("8");
        reveal_strlit("9");
    }
    if d == 0 {
        "0"
    } else if d == 1 {
        "1"
    } else if d == 2 {
        "2"
    } else if d == 3 {
        "3"
    } else if d == 4 {
        "4"
    } else if d == 5 {
        "5"
    } else if d == 6 {
        "6"
    } else if d == 7 {
        "7"
    } else if d == 8 {
        "8"
    } else {
        "9"
    }
}

/// The decimal text of `n`.
pub fn decimal_text(n: u64) -> (r: String)
    ensures
        r@ == spec_decimal(n as nat),
{
    let mut rest: u64 = n / 10;
    let mut text = String::from_str(digit_text(n % 10));
    while rest > 0
        invariant
            rest > 0 ==> spec_decimal(n as nat) == spec_decimal(rest as nat) + text@,
            rest == 0 ==> spec_decimal(n as nat) == text@,
        decreases rest,
    {
        let ghost before = text@;
        let mut next = String::from_str(digit_text(rest % 10));
        next.append(text.as_str());
        proof {
            if rest >= 10 {
                let head = spec_decimal((rest / 10) as nat);
                assert(spec_decimal(rest as nat) == head.push(spec_digit((rest % 10) as nat)));
                assert(head.push(spec_digit((rest % 10) as nat)) + before =~= head + (seq![
                    spec_digit((rest % 10) as nat),
                ] + before));
            }
        }
        text = next;
        rest = rest / 10;
    }
    text
}

/// Whether `s` holds the character `c`.
pub fn contains_char(s: &str, c: char) -> (r: bool)
    ensures
        r == s@.contains(c),
{
    let mut found = false;
    for ch in it: s.chars()
        invariant
            it.seq() == s@,
            found == s@.take(it.index() as int).contains(c),
    {
        let ghost i = it.index() as int;
        assert(ch == s@[i]);
        let ghost pre = s@.take(i);
        assert(s@.take(i + 1) == pre.push(ch));
        if ch == c {
            found = true;
            assert(pre.push(ch)[i] == c);
        } else {
            assert forall|j: int| 0 <= j < i + 1 implies (#[trigger] pre.push(ch)[j] == c) == (j < i
                && pre[j] == c) by {}
        }
        assert(found == s@.take(i + 1).contains(c));
    }
    proof {
        assert(s@.take(s@.len() as int) == s@);
    }
    found
}

/// The first `n` characters of `s` (all of them when it is shorter).
pub fn first_chars(s: &str, n: usize) -> (r: String)
    ensures
        r@ == s@.take(if n < s@.len() { n as int } else { s@.len() as int }),
{
    let len = s.unicode_len();
    let k = if n < len {
        n
    } else {
        len
    };
    String::from_str(s.substring_char(0, k))
}

/// Whether two strings hold the same text.
pub fn str_equals(a: &str, b: &str) -> (r: bool)
    ensures
        r == (a@ == b@),
{
    let x = String::from_str(a);
    let y = String::from_str(b);
    x == y
}

/// The UTF-8 bytes of a string are valid UTF-8 and decode to its text.
pub proof fn lemma_str_bytes(s: &str)
    ensures
        valid_utf8(s.spec_bytes()),
        decode_utf8(s.spec_bytes()) == s@,
        is_char_boundary(s.spec_bytes(), 0),
        is_char_boundary(s.spec_bytes(), s.spec_bytes().len() as int),
{
    encode_utf8_valid_utf8(s@);
    encode_utf8_decode_utf8(s@);
    is_char_boundary_start_end_of_seq(s.spec_bytes());
}

/// The length of `s` in UTF-8 bytes.
pub fn byte_len(s: &str) -> (n: usize)
    ensures
        n == s.spec_bytes().len(),
{
    s.as_bytes().len()
}

/// The text of the bytes `start..end` of `bytes`.
pub open spec fn spec_text_between(bytes: Seq<u8>, start: int, end: int) -> Seq<char> {
    decode_utf8(bytes.subrange(start, end))
}

/// The part of `input` between the byte offsets `start` and `end`, both of
/// which lie on character boundaries.
pub fn byte_slice<'a>(input: &'a str, start: usize, end: usize) -> (r: &'a str)
    requires
        start <= end <= input.spec_bytes().len(),
        is_char_boundary(input.spec_bytes(), start as int),
        is_char_boundary(input.spec_bytes(), end as int),
    ensures
        r@ == spec_text_between(input.spec_bytes(), start as int, end as int),
        r.spec_bytes() == input.spec_bytes().subrange(start as int, end as int),
{
    let ghost bytes = input.spec_bytes();
    proof {
        lemma_str_bytes(input);
    }
    let (left, _) = input.split_at(end);
    proof {
        let pre = bytes.subrange(0, end as int);
        valid_utf8_split(bytes, end as int);
        assert(left.spec_bytes() == pre);
        if start < end {
            is_char_boundary_iff_not_is_continuation_byte(bytes, start as int);
            is_char_boundary_iff_not_is_continuation_byte(pre, start as int);
        } else {
            is_char_boundary_start_end_of_seq(pre);
        }
    }
    let (_, right) = left.split_at(start);
    proof {
        lemma_str_bytes(right);
        assert(right.spec_bytes() == bytes.subrange(start as int, end as int));
    }
    right
}

/// The largest character boundary of `bytes` at or below `max`.
pub open spec fn spec_floor_char_boundary(bytes: Seq<u8>, max: int) -> int
    decreases max,
{
    if max <= 0 {
        0
    } else if is_char_boundary(bytes, max) {
        max
    } else {
        spec_floor_char_boundary(bytes, max - 1)
    }
}

/// `input` itself when it fits in `max` bytes; otherwise its longest prefix
/// of whole characters within `max` bytes, followed by `...`.
pub open spec fn spec_truncate(text: Seq<char>, max: usize) -> Seq<char> {
    let bytes = encode_utf8(text);
    if bytes.len() <= max {
        text
    } else {
        spec_text_between(bytes, 0, spec_floor_char_boundary(bytes, max as int)) + "..."@
    }
}

/// Shortens `input` to at most `max` bytes on a character boundary, marking
/// the cut with `...`.
pub fn truncate(input: &str, max: usize) -> (r: String)
    ensures
        r@ == spec_truncate(input@, max),
{
    if byte_len(input) <= max {
        return String::from_str(input);
    }
    let ghost bytes = input.spec_bytes();
    proof {
        lemma_str_bytes(input);
    }
    let mut cut = max;
    while !input.is_char_boundary(cut)
        invariant
            cut <= max < bytes.len(),
            bytes == input.spec_bytes(),
            valid_utf8(bytes),
            is_char_boundary(bytes, 0),
            spec_floor_char_boundary(bytes, max as int) == spec_floor_char_boundary(bytes, cut as int),
        decreases cut,
    {
        cut = cut - 1;
    }
    assert(spec_floor_char_boundary(bytes, cut as int) == cut as int);
    let head = byte_slice(input, 0, cut);
    String::from_str(head).concat("...")
}

proof fn lemma_floor_is_boundary(bytes: Seq<u8>, max: int)
    requires
        is_char_boundary(bytes, 0),
    ensures
        0 <= spec_floor_char_boundary(bytes, max),
        max >= 0 ==> spec_floor_char_boundary(bytes, max) <= max,
        is_char_boundary(bytes, spec_floor_char_boundary(bytes, max)),
    decreases max,
{
    if max > 0 && !is_char_boundary(bytes, max) {
        lemma_floor_is_boundary(bytes, max - 1);
    }
}

/// Truncation keeps text that fits and otherwise keeps a prefix of whole
/// characters that fits in `max` bytes, marked with `...`.
pub proof fn lemma_truncate_keeps_prefix(text: Seq<char>, max: usize)
    ensures
        encode_utf8(text).len() <= max ==> spec_truncate(text, max) == text,
        encode_utf8(text).len() > max ==> exists|p: Seq<char>|
            #![trigger encode_utf8(p)]
            spec_truncate(text, max) == p + "..."@ && p.len() <= text.len() && text.subrange(
                0,
                p.len() as int,
            ) == p && encode_utf8(p).len() <= max,
{
    let bytes = encode_utf8(text);
    encode_utf8_valid_utf8(text);
    encode_utf8_decode_utf8(text);
    is_char_boundary_start_end_of_seq(bytes);
    if bytes.len() > max {
        let b = spec_floor_char_boundary(bytes, max as int);
        lemma_floor_is_boundary(bytes, max as int);
        valid_utf8_split(bytes, b);
        decode_utf8_split(bytes, b);
        let p = decode_utf8(bytes.subrange(0, b));
        let q = decode_utf8(bytes.subrange(b, bytes.len() as int));
        assert(text == p + q);
        assert(text.subrange(0, p.len() as int) == p);
        vstd::utf8::decode_utf8_encode_utf8(bytes.subrange(0, b));
        assert(encode_utf8(p) == bytes.subrange(0, b));
    }
}

} // verus!

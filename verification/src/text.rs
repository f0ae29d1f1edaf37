//! Lines and white-space separated tokens of a text, over its UTF-8 bytes.

use vstd::prelude::*;
use vstd::string::StringSliceAdditionalSpecFns;
use vstd::utf8::*;

verus! {

/// The white-space characters of one byte: space, tab, line feed, vertical
/// tab, form feed, carriage return.
pub open spec fn is_space_byte(b: u8) -> bool {
    b == 0x20 || (0x09 <= b && b <= 0x0d)
}

/// The white-space characters of two bytes: U+0085 and U+00A0.
pub open spec fn is_space_pair(a: u8, b: u8) -> bool {
    a == 0xc2 && (b == 0x85 || b == 0xa0)
}

/// The white-space characters of three bytes: U+1680, U+2000 to U+200A,
/// U+2028, U+2029, U+202F, U+205F and U+3000.
pub open spec fn is_space_triple(a: u8, b: u8, c: u8) -> bool {
    ||| (a == 0xe1 && b == 0x9a && c == 0x80)
    ||| (a == 0xe2 && b == 0x80 && ((0x80 <= c && c <= 0x8a) || c == 0xa8 || c == 0xa9 || c
        == 0xaf))
    ||| (a == 0xe2 && b == 0x81 && c == 0x9f)
    ||| (a == 0xe3 && b == 0x80 && c == 0x80)
}

/// The length in bytes of the white-space character that starts at `i`, or 0
/// where none starts there.
pub open spec fn space_len(s: Seq<u8>, i: int) -> int {
    if i < 0 || i >= s.len() {
        0
    } else if is_space_byte(s[i]) {
        1
    } else if i + 1 < s.len() && is_space_pair(s[i], s[i + 1]) {
        2
    } else if i + 2 < s.len() && is_space_triple(s[i], s[i + 1], s[i + 2]) {
        3
    } else {
        0
    }
}

/// The first position from `i` on at which white space starts, or the end.
pub open spec fn token_end(s: Seq<u8>, i: int) -> int
    decreases s.len() - i,
{
    if i < 0 || i >= s.len() || space_len(s, i) > 0 {
        i
    } else {
        token_end(s, i + 1)
    }
}

/// The tokens of `s` that start at `i` or later: the maximal runs of bytes
/// between white space, in order.
pub open spec fn tokens_from(s: Seq<u8>, i: int) -> Seq<Seq<u8>>
    decreases s.len() - i,
    via tokens_from_decreases
{
    if i < 0 || i >= s.len() {
        Seq::empty()
    } else if space_len(s, i) > 0 {
        tokens_from(s, i + space_len(s, i))
    } else {
        seq![s.subrange(i, token_end(s, i + 1))] + tokens_from(s, token_end(s, i + 1))
    }
}

#[via_fn]
proof fn tokens_from_decreases(s: Seq<u8>, i: int) {
    if 0 <= i < s.len() && space_len(s, i) == 0 {
        lemma_token_end_bounds(s, i + 1);
    }
}

/// The tokens of a line.
pub open spec fn tokens(s: Seq<u8>) -> Seq<Seq<u8>> {
    tokens_from(s, 0)
}

/// The position of the first line feed from `i` on, or the end.
pub open spec fn line_end(s: Seq<u8>, i: int) -> int
    decreases s.len() - i,
{
    if i < 0 || i >= s.len() || s[i] == 0x0a {
        i
    } else {
        line_end(s, i + 1)
    }
}

/// The bytes of each string of a list.
pub open spec fn bytes_of(v: Seq<&str>) -> Seq<Seq<u8>> {
    Seq::new(v.len(), |k: int| v[k].spec_bytes())
}

/// A place at which a string can be cut: its end, or a byte that starts a
/// character.
pub open spec fn is_cut(s: Seq<u8>, i: int) -> bool {
    0 <= i <= s.len() && (i < s.len() ==> !is_continuation_byte(s[i]))
}

/// The width that a leading byte announces.
pub open spec fn lead_width(b: u8) -> int {
    if b < 0x80 {
        1
    } else if b < 0xe0 {
        2
    } else if b < 0xf0 {
        3
    } else {
        4
    }
}

pub proof fn lemma_token_end_bounds(s: Seq<u8>, i: int)
    requires
        0 <= i <= s.len(),
    ensures
        i <= token_end(s, i) <= s.len(),
        token_end(s, i) < s.len() ==> space_len(s, token_end(s, i)) > 0,
        forall|j: int| i <= j < token_end(s, i) ==> space_len(s, j) == 0,
    decreases s.len() - i,
{
    if i < s.len() && space_len(s, i) == 0 {
        lemma_token_end_bounds(s, i + 1);
    }
}

pub proof fn lemma_line_end_bounds(s: Seq<u8>, i: int)
    requires
        0 <= i <= s.len(),
    ensures
        i <= line_end(s, i) <= s.len(),
        line_end(s, i) < s.len() ==> s[line_end(s, i)] == 0x0a,
        forall|j: int| i <= j < line_end(s, i) ==> s[j] != 0x0a,
    decreases s.len() - i,
{
    if i < s.len() && s[i] != 0x0a {
        lemma_line_end_bounds(s, i + 1);
    }
}

/// In well-formed UTF-8 a character that starts at `i` ends at a cut.
pub proof fn lemma_next_cut(s: Seq<u8>, i: int)
    requires
        valid_utf8(s),
        0 <= i < s.len(),
        !is_continuation_byte(s[i]),
    ensures
        is_cut(s, i + lead_width(s[i])),
{
    is_char_boundary_iff_not_is_continuation_byte(s, i);
    valid_utf8_split(s, i);
    let rest = s.subrange(i, s.len() as int);
    assert(rest.len() > 0);
    assert(rest[0] == s[i]);
    assert(valid_first_scalar(rest) && valid_utf8(pop_first_scalar(rest)));
    let w = length_of_first_scalar(rest);
    assert(w == lead_width(s[i]));
    let tail = pop_first_scalar(rest);
    if tail.len() > 0 {
        assert(is_char_boundary(tail, 0));
        is_char_boundary_iff_not_is_continuation_byte(tail, 0);
        assert(tail[0] == s[i + w]);
    }
}

/// A cut of well-formed UTF-8 is a character boundary.
pub proof fn lemma_cut_is_boundary(s: Seq<u8>, i: int)
    requires
        valid_utf8(s),
        is_cut(s, i),
    ensures
        is_char_boundary(s, i),
{
    if i < s.len() {
        is_char_boundary_iff_not_is_continuation_byte(s, i);
    } else {
        is_char_boundary_start_end_of_seq(s);
    }
}

/// The part of `s` between two cuts.
pub fn slice_str(s: &str, from: usize, to: usize) -> (r: &str)
    requires
        from <= to,
        is_cut(s.spec_bytes(), from as int),
        is_cut(s.spec_bytes(), to as int),
    ensures
        r.spec_bytes() == s.spec_bytes().subrange(from as int, to as int),
{
    proof {
        encode_utf8_valid_utf8(s@);
        lemma_cut_is_boundary(s.spec_bytes(), to as int);
    }
    let (head, _) = s.split_at(to);
    proof {
        encode_utf8_valid_utf8(head@);
        lemma_cut_is_boundary(head.spec_bytes(), from as int);
    }
    let (_, r) = head.split_at(from);
    assert(r.spec_bytes() =~= s.spec_bytes().subrange(from as int, to as int));
    r
}

/// The length of the white-space character that starts at `i`, or 0.
pub fn space_len_at(bytes: &[u8], i: usize) -> (w: usize)
    requires
        i < bytes.len(),
    ensures
        w == space_len(bytes@, i as int),
{
    let n = bytes.len();
    let a = bytes[i];
    if a == 0x20 || (0x09 <= a && a <= 0x0d) {
        1
    } else if a == 0xc2 {
        if n - i > 1 && (bytes[i + 1] == 0x85 || bytes[i + 1] == 0xa0) {
            2
        } else {
            0
        }
    } else if a == 0xe1 || a == 0xe2 || a == 0xe3 {
        if n - i > 2 {
            let b = bytes[i + 1];
            let c = bytes[i + 2];
            if a == 0xe1 && b == 0x9a && c == 0x80 {
                3
            } else if a == 0xe2 && b == 0x80 && ((0x80 <= c && c <= 0x8a) || c == 0xa8 || c
                == 0xa9 || c == 0xaf) {
                3
            } else if a == 0xe2 && b == 0x81 && c == 0x9f {
                3
            } else if a == 0xe3 && b == 0x80 && c == 0x80 {
                3
            } else {
                0
            }
        } else {
            0
        }
    } else {
        0
    }
}

/// The tokens of a line, each a part of the line itself.
pub fn split_whitespace<'a>(line: &'a str) -> (r: Vec<&'a str>)
    ensures
        bytes_of(r@) == tokens(line.spec_bytes()),
{
    let bytes = line.as_bytes();
    let n = bytes.len();
    let mut out: Vec<&'a str> = Vec::new();
    let mut i: usize = 0;
    proof {
        encode_utf8_valid_utf8(line@);
        if n > 0 {
            is_char_boundary_iff_not_is_continuation_byte(bytes@, 0);
        }
        assert(bytes_of(out@) =~= Seq::<Seq<u8>>::empty());
    }
    while i < n
        invariant
            n == bytes@.len(),
            bytes@ == line.spec_bytes(),
            valid_utf8(bytes@),
            is_cut(bytes@, i as int),
            tokens(bytes@) == bytes_of(out@) + tokens_from(bytes@, i as int),
        decreases n - i,
    {
        let w = space_len_at(bytes, i);
        if w > 0 {
            proof {
                lemma_next_cut(bytes@, i as int);
            }
            i = i + w;
        } else {
            let start = i;
            i = i + 1;
            while i < n && space_len_at(bytes, i) == 0
                invariant
                    n == bytes@.len(),
                    start < i <= n,
                    token_end(bytes@, start + 1) == token_end(bytes@, i as int),
                decreases n - i,
            {
                i = i + 1;
            }
            proof {
                assert(token_end(bytes@, i as int) == i);
                assert(is_cut(bytes@, i as int));
            }
            let token = slice_str(line, start, i);
            proof {
                assert(bytes_of(out@.push(token)) =~= bytes_of(out@) + seq![
                    bytes@.subrange(start as int, i as int),
                ]);
            }
            out.push(token);
        }
    }
    proof {
        assert(bytes_of(out@) + tokens_from(bytes@, i as int) =~= bytes_of(out@));
    }
    out
}

/// Whether two byte strings are the same.
pub fn same_bytes(a: &[u8], b: &[u8]) -> (r: bool)
    ensures
        r == (a@ == b@),
{
    if a.len() != b.len() {
        return false;
    }
    let mut i: usize = 0;
    while i < a.len()
        invariant
            a.len() == b.len(),
            i <= a.len(),
            forall|k: int| 0 <= k < i ==> a@[k] == b@[k],
        decreases a.len() - i,
    {
        if a[i] != b[i] {
            return false;
        }
        i = i + 1;
    }
    assert(a@ =~= b@);
    true
}

/// Whether a token is a given word.
pub fn is_word(token: &str, word: &str) -> (r: bool)
    ensures
        r == (token.spec_bytes() == word.spec_bytes()),
{
    same_bytes(token.as_bytes(), word.as_bytes())
}

/// The first position from `i` on at which no white space starts.
pub open spec fn skip_spaces(s: Seq<u8>, i: int) -> int
    decreases s.len() - i,
{
    if i < 0 || i >= s.len() || space_len(s, i) == 0 {
        i
    } else {
        skip_spaces(s, i + space_len(s, i))
    }
}

/// The position after the last byte from `i` on that is no white space, or
/// `end` where only white space follows.
pub open spec fn last_token_end(s: Seq<u8>, i: int, end: int) -> int
    decreases s.len() - i,
{
    if i < 0 || i >= s.len() {
        end
    } else if space_len(s, i) > 0 {
        last_token_end(s, i + space_len(s, i), end)
    } else {
        last_token_end(s, i + 1, i + 1)
    }
}

/// A text without the white space at its two ends.
pub open spec fn trimmed(s: Seq<u8>) -> Seq<u8> {
    s.subrange(skip_spaces(s, 0), last_token_end(s, skip_spaces(s, 0), skip_spaces(s, 0)))
}

/// The part of a string from the cut `from` on, without the white space at
/// its two ends.
pub fn trim_from(line: &str, from: usize) -> (r: &str)
    requires
        is_cut(line.spec_bytes(), from as int),
    ensures
        r.spec_bytes() == trimmed(line.spec_bytes().subrange(from as int, line.spec_bytes().len() as int)),
{
    let rest = slice_str(line, from, line.as_bytes().len());
    let bytes = rest.as_bytes();
    let n = bytes.len();
    proof {
        encode_utf8_valid_utf8(rest@);
        if n > 0 {
            is_char_boundary_iff_not_is_continuation_byte(bytes@, 0);
        }
    }
    let mut start: usize = 0;
    while start < n && space_len_at(bytes, start) > 0
        invariant
            n == bytes@.len(),
            valid_utf8(bytes@),
            start <= n,
            is_cut(bytes@, start as int),
            skip_spaces(bytes@, 0) == skip_spaces(bytes@, start as int),
        decreases n - start,
    {
        proof {
            lemma_next_cut(bytes@, start as int);
        }
        start = start + space_len_at(bytes, start);
    }
    assert(skip_spaces(bytes@, 0) == start);
    let mut i: usize = start;
    let mut end: usize = start;
    while i < n
        invariant
            n == bytes@.len(),
            start <= end <= i <= n,
            end < i ==> space_len(bytes@, end as int) > 0,
            last_token_end(bytes@, start as int, start as int) == last_token_end(
                bytes@,
                i as int,
                end as int,
            ),
        decreases n - i,
    {
        let w = space_len_at(bytes, i);
        if w > 0 {
            i = i + w;
        } else {
            i = i + 1;
            end = i;
        }
    }
    assert(last_token_end(bytes@, start as int, start as int) == end);
    assert(is_cut(bytes@, end as int));
    slice_str(rest, start, end)
}

/// A string without the white space at its two ends.
pub fn trim(line: &str) -> (r: &str)
    ensures
        r.spec_bytes() == trimmed(line.spec_bytes()),
{
    proof {
        encode_utf8_valid_utf8(line@);
        if line.spec_bytes().len() > 0 {
            is_char_boundary_iff_not_is_continuation_byte(line.spec_bytes(), 0);
        }
        assert(line.spec_bytes().subrange(0, line.spec_bytes().len() as int) =~= line.spec_bytes());
    }
    trim_from(line, 0)
}

/// A text begins with a word.
pub open spec fn begins_with(s: Seq<u8>, word: Seq<u8>) -> bool {
    word.len() <= s.len() && s.subrange(0, word.len() as int) == word
}

/// Whether a string begins with a word.
pub fn starts_with(line: &str, word: &str) -> (r: bool)
    ensures
        r == begins_with(line.spec_bytes(), word.spec_bytes()),
{
    let a = line.as_bytes();
    let b = word.as_bytes();
    if b.len() > a.len() {
        return false;
    }
    same_bytes(vstd::slice::slice_subrange(a, 0, b.len()), b)
}

/// The characters that a token's bytes encode.
pub proof fn lemma_text_of(token: &str)
    ensures
        token@ == decode_utf8(token.spec_bytes()),
{
    encode_utf8_decode_utf8(token@);
}

} // verus!

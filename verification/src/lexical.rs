//! Byte-level facts shared by both scanners: character classes, where runs of
//! characters end, how whitespace and comments are skipped, line counting, and
//! why every place a scanner slices its source is a character boundary.
use vstd::prelude::*;
use vstd::string::*;
use vstd::utf8::*;

verus! {

broadcast use vstd::seq::group_seq_axioms;

/// `c` is an ASCII decimal digit.
pub open spec fn spec_is_digit(c: u8) -> bool {
    48 <= c <= 57
}

/// `c` is an ASCII letter or an underscore.
pub open spec fn spec_is_alpha(c: u8) -> bool {
    (97 <= c <= 122) || (65 <= c <= 90) || c == 95
}

/// The source is terminated: its last byte is a NUL, which marks the end of input.
pub open spec fn terminated(b: Seq<u8>) -> bool {
    b.len() > 0 && b[b.len() - 1] == 0
}

/// No NUL byte occurs before position `i`.
pub open spec fn no_nul_before(b: Seq<u8>, i: int) -> bool {
    forall|k: int| 0 <= k < i ==> b[k] != 0
}

/// A scanner position inside a terminated source that has not passed its end mark.
pub open spec fn valid_position(b: Seq<u8>, i: int) -> bool {
    &&& terminated(b)
    &&& 0 <= i < b.len()
    &&& no_nul_before(b, i)
}

/// Number of newline bytes in `s`.
pub open spec fn count_newlines(s: Seq<u8>) -> nat
    decreases s.len(),
{
    if s.len() == 0 {
        0
    } else {
        count_newlines(s.drop_last()) + if s.last() == 10 { 1nat } else { 0nat }
    }
}

/// The line on which position `i` of `b` lies, counting from one.
pub open spec fn line_at(b: Seq<u8>, i: int) -> nat {
    1 + count_newlines(b.subrange(0, i))
}

/// First position at or after `j` holding a newline or the end mark.
pub open spec fn comment_end(b: Seq<u8>, j: int) -> int
    decreases b.len() - j,
{
    if j < 0 || j >= b.len() {
        j
    } else if b[j] == 10 || b[j] == 0 {
        j
    } else {
        comment_end(b, j + 1)
    }
}

/// First position at or after `j` holding a double quote or the end mark.
pub open spec fn string_end(b: Seq<u8>, j: int) -> int
    decreases b.len() - j,
{
    if j < 0 || j >= b.len() {
        j
    } else if b[j] == 34 || b[j] == 0 {
        j
    } else {
        string_end(b, j + 1)
    }
}

/// First position at or after `j` that does not hold a digit.
pub open spec fn digits_end(b: Seq<u8>, j: int) -> int
    decreases b.len() - j,
{
    if j < 0 || j >= b.len() {
        j
    } else if !spec_is_digit(b[j]) {
        j
    } else {
        digits_end(b, j + 1)
    }
}

/// First position at or after `j` that holds neither a digit nor a letter nor an underscore.
pub open spec fn word_end(b: Seq<u8>, j: int) -> int
    decreases b.len() - j,
{
    if j < 0 || j >= b.len() {
        j
    } else if !spec_is_digit(b[j]) && !spec_is_alpha(b[j]) {
        j
    } else {
        word_end(b, j + 1)
    }
}

/// Where a number literal starting at `s` ends: its digits, then, if a dot
/// followed by a digit comes next, the dot and the digits after it.
pub open spec fn number_end(b: Seq<u8>, s: int) -> int {
    let i = digits_end(b, s + 1);
    if i + 1 < b.len() && b[i] == 46 && spec_is_digit(b[i + 1]) {
        digits_end(b, i + 2)
    } else {
        i
    }
}

pub proof fn lemma_comment_end(b: Seq<u8>, j: int)
    requires
        0 <= j <= b.len(),
    ensures
        j <= comment_end(b, j) <= b.len(),
        comment_end(b, j) < b.len() ==> (b[comment_end(b, j)] == 10 || b[comment_end(b, j)] == 0),
        forall|k: int| j <= k < comment_end(b, j) ==> b[k] != 10 && b[k] != 0,
    decreases b.len() - j,
{
    if j < b.len() && !(b[j] == 10 || b[j] == 0) {
        lemma_comment_end(b, j + 1);
    }
}

pub proof fn lemma_string_end(b: Seq<u8>, j: int)
    requires
        0 <= j <= b.len(),
    ensures
        j <= string_end(b, j) <= b.len(),
        string_end(b, j) < b.len() ==> (b[string_end(b, j)] == 34 || b[string_end(b, j)] == 0),
        forall|k: int| j <= k < string_end(b, j) ==> b[k] != 34 && b[k] != 0,
    decreases b.len() - j,
{
    if j < b.len() && !(b[j] == 34 || b[j] == 0) {
        lemma_string_end(b, j + 1);
    }
}

pub proof fn lemma_digits_end(b: Seq<u8>, j: int)
    requires
        0 <= j <= b.len(),
    ensures
        j <= digits_end(b, j) <= b.len(),
        digits_end(b, j) < b.len() ==> !spec_is_digit(b[digits_end(b, j)]),
        forall|k: int| j <= k < digits_end(b, j) ==> spec_is_digit(b[k]),
    decreases b.len() - j,
{
    if j < b.len() && spec_is_digit(b[j]) {
        lemma_digits_end(b, j + 1);
    }
}

pub proof fn lemma_word_end(b: Seq<u8>, j: int)
    requires
        0 <= j <= b.len(),
    ensures
        j <= word_end(b, j) <= b.len(),
        word_end(b, j) < b.len() ==> !spec_is_digit(b[word_end(b, j)]) && !spec_is_alpha(
            b[word_end(b, j)],
        ),
        forall|k: int| j <= k < word_end(b, j) ==> spec_is_digit(b[k]) || spec_is_alpha(b[k]),
    decreases b.len() - j,
{
    if j < b.len() && (spec_is_digit(b[j]) || spec_is_alpha(b[j])) {
        lemma_word_end(b, j + 1);
    }
}

/// Where whitespace and line comments starting at `i` end: spaces, carriage
/// returns, tabs and newlines are skipped, and `//` skips to the end of its line.
pub open spec fn ws_end(b: Seq<u8>, i: int) -> int
    decreases b.len() - i,
{
    if i < 0 || i >= b.len() {
        i
    } else if b[i] == 32 || b[i] == 13 || b[i] == 9 || b[i] == 10 {
        ws_end(b, i + 1)
    } else if b[i] == 47 && i + 1 < b.len() && b[i + 1] == 47 {
        proof {
            lemma_comment_end(b, i + 2);
        }
        ws_end(b, comment_end(b, i + 2))
    } else {
        i
    }
}


/// A whitespace byte that the scanners skip: space, carriage return, tab or newline.
pub open spec fn spec_is_blank(c: u8) -> bool {
    c == 32 || c == 13 || c == 9 || c == 10
}

pub proof fn lemma_ws_end(b: Seq<u8>, i: int)
    requires
        valid_position(b, i),
    ensures
        i <= ws_end(b, i),
        valid_position(b, ws_end(b, i)),
        !spec_is_blank(b[ws_end(b, i)]),
        !(b[ws_end(b, i)] == 47 && b[ws_end(b, i) + 1] == 47),
    decreases b.len() - i,
{
    if spec_is_blank(b[i]) {
        lemma_ws_end(b, i + 1);
    } else if b[i] == 47 && i + 1 < b.len() && b[i + 1] == 47 {
        lemma_comment_end(b, i + 2);
        let j = comment_end(b, i + 2);
        assert(j < b.len()) by {
            if j == b.len() {
                assert(b[b.len() - 1] != 0);
            }
        }
        lemma_ws_end(b, j);
    } else if b[i] == 47 {
        assert(i + 1 < b.len());
    }
}

/// Counting newlines up to one more position adds one exactly when that
/// position holds a newline.
pub proof fn lemma_line_step(b: Seq<u8>, i: int)
    requires
        0 <= i < b.len(),
    ensures
        line_at(b, i + 1) == line_at(b, i) + if b[i] == 10 { 1int } else { 0int },
{
    assert(b.subrange(0, i + 1).drop_last() =~= b.subrange(0, i));
}

/// There are never more newlines than bytes.
pub proof fn lemma_count_newlines_bound(s: Seq<u8>)
    ensures
        count_newlines(s) <= s.len(),
    decreases s.len(),
{
    if s.len() > 0 {
        lemma_count_newlines_bound(s.drop_last());
    }
}

/// Where the text of a token comes from: a span of the source, or a fixed message.
pub enum LexemeSpec {
    Span(int, int),
    Message(Seq<char>),
}

/// The outcome of one scanning step: the token's kind, its text, and where the
/// scanner stands afterwards.
pub struct ScanStep<K> {
    pub kind: K,
    pub lexeme: LexemeSpec,
    pub next: int,
}

/// In valid UTF-8, a position holding an ASCII byte starts a character.
pub proof fn lemma_ascii_at_is_boundary(b: Seq<u8>, i: int)
    requires
        valid_utf8(b),
        0 <= i < b.len(),
        b[i] < 128,
    ensures
        is_char_boundary(b, i),
    decreases b.len(),
{
    if i > 0 {
        let n = length_of_first_scalar(b);
        let rest = pop_first_scalar(b);
        assert(rest.len() == b.len() - n);
        if i >= n {
            assert(rest[i - n] == b[i]);
            if i - n > 0 {
                lemma_ascii_at_is_boundary(rest, i - n);
            }
        }
    }
}

/// In valid UTF-8, the position just after an ASCII byte starts a character
/// (or is the end of the bytes).
pub proof fn lemma_after_ascii_is_boundary(b: Seq<u8>, i: int)
    requires
        valid_utf8(b),
        0 < i <= b.len(),
        b[i - 1] < 128,
    ensures
        is_char_boundary(b, i),
    decreases b.len(),
{
    let n = length_of_first_scalar(b);
    let rest = pop_first_scalar(b);
    assert(rest.len() == b.len() - n);
    assert(valid_first_scalar(b));
    assert(valid_utf8(rest));
    if i > n {
        assert(rest[i - n - 1] == b[i - 1]);
        lemma_after_ascii_is_boundary(rest, i - n);
    } else if i == n {
        assert(is_char_boundary(rest, 0));
    } else {
        assert(i - 1 == 0 || is_continuation_byte(b[i - 1]));
    }
}

/// A slice of `b` from `a` to `e` where both ends lie next to ASCII bytes
/// (or the slice is empty at an ASCII byte) can be cut out of a string.
pub open spec fn ascii_framed(b: Seq<u8>, a: int, e: int) -> bool {
    &&& 0 <= a <= e < b.len()
    &&& b[a] < 128
    &&& (a < e ==> b[e - 1] < 128)
}

/// The text between byte positions `start` and `end` of `s`, whose ends lie
/// next to ASCII bytes.
pub fn ascii_slice<'a>(s: &'a str, start: usize, end: usize) -> (r: &'a str)
    requires
        ascii_framed(s.spec_bytes(), start as int, end as int),
    ensures
        r.spec_bytes() == s.spec_bytes().subrange(start as int, end as int),
{
    let ghost b = s.spec_bytes();
    proof {
        broadcast use encode_utf8_valid_utf8;
        lemma_ascii_at_is_boundary(b, start as int);
        valid_utf8_split(b, start as int);
    }
    let (_, tail) = s.split_at(start);
    let ghost t = tail.spec_bytes();
    proof {
        assert(t =~= b.subrange(start as int, b.len() as int));
        if start < end {
            assert(t[end - start - 1] == b[end - 1]);
            lemma_after_ascii_is_boundary(t, end - start);
        }
    }
    let (r, _) = tail.split_at(end - start);
    proof {
        assert(r.spec_bytes() =~= b.subrange(start as int, end as int));
    }
    r
}

/// The text of `s` without its first and last bytes, both ASCII (such as the
/// quotes around a string literal).
pub fn inner_text<'a>(s: &'a str) -> (r: &'a str)
    requires
        s.spec_bytes().len() >= 2,
        s.spec_bytes()[0] < 128,
        s.spec_bytes()[s.spec_bytes().len() - 1] < 128,
    ensures
        r.spec_bytes() == s.spec_bytes().subrange(1, s.spec_bytes().len() - 1),
{
    let ghost b = s.spec_bytes();
    let n = s.as_bytes().len();
    proof {
        broadcast use encode_utf8_valid_utf8;
        lemma_after_ascii_is_boundary(b, 1);
        valid_utf8_split(b, 1);
    }
    let (_, tail) = s.split_at(1);
    let ghost t = tail.spec_bytes();
    proof {
        assert(t =~= b.subrange(1, b.len() as int));
        assert(t[n - 2] == b[n - 1]);
        lemma_ascii_at_is_boundary(t, n - 2);
    }
    let (r, _) = tail.split_at(n - 2);
    proof {
        assert(r.spec_bytes() =~= b.subrange(1, n - 1));
    }
    r
}

/// Whether two strings hold the same text.
pub fn str_equal(a: &str, b: &str) -> (r: bool)
    ensures
        r == (a@ == b@),
{
    let x = a.as_bytes();
    let y = b.as_bytes();
    proof {
        broadcast use encode_utf8_decode_utf8;
        assert(a@ == decode_utf8(a.spec_bytes()));
        assert(b@ == decode_utf8(b.spec_bytes()));
    }
    if x.len() != y.len() {
        assert(x@ != y@ ==> a.spec_bytes() != b.spec_bytes());
        return false;
    }
    let mut i: usize = 0;
    while i < x.len()
        invariant
            x@.len() == y@.len(),
            x@ == a.spec_bytes(),
            y@ == b.spec_bytes(),
            a@ == decode_utf8(a.spec_bytes()),
            b@ == decode_utf8(b.spec_bytes()),
            0 <= i <= x@.len(),
            forall|k: int| 0 <= k < i ==> x@[k] == y@[k],
        decreases x@.len() - i,
    {
        if x[i] != y[i] {
            assert(x@[i as int] != y@[i as int]);
            return false;
        }
        i = i + 1;
    }
    assert(x@ =~= y@);
    true
}

} // verus!

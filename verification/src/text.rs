//! Text handling for request lines: white space, the split at the first
//! space, and quote stripping. Every function is stated over the sequence of
//! characters that a string holds.

use vstd::prelude::*;
use vstd::string::*;

verus! {

/// Whether `c` is white space as Unicode defines it (`White_Space`).
pub open spec fn is_whitespace_char(c: char) -> bool {
    let u = c as u32;
    ||| 0x09 <= u <= 0x0D
    ||| u == 0x20
    ||| u == 0x85
    ||| u == 0xA0
    ||| u == 0x1680
    ||| 0x2000 <= u <= 0x200A
    ||| u == 0x2028
    ||| u == 0x2029
    ||| u == 0x202F
    ||| u == 0x205F
    ||| u == 0x3000
}

/// Whether `c` is anything but the separator between a command and its argument.
pub open spec fn is_not_space(c: char) -> bool {
    c != ' '
}

/// How many characters at the front of `s` satisfy `keep` without interruption.
pub open spec fn leading_run(s: Seq<char>, keep: spec_fn(char) -> bool) -> nat
    decreases s.len(),
{
    if s.len() > 0 && keep(s[0]) {
        1 + leading_run(s.drop_first(), keep)
    } else {
        0
    }
}

/// How many characters at the back of `s` satisfy `keep` without interruption.
pub open spec fn trailing_run(s: Seq<char>, keep: spec_fn(char) -> bool) -> nat
    decreases s.len(),
{
    if s.len() > 0 && keep(s.last()) {
        1 + trailing_run(s.drop_last(), keep)
    } else {
        0
    }
}

/// `s` without the white space at its front.
pub open spec fn trimmed_start(s: Seq<char>) -> Seq<char> {
    s.skip(leading_run(s, |c: char| is_whitespace_char(c)) as int)
}

/// `s` without the white space at its back.
pub open spec fn trimmed_end(s: Seq<char>) -> Seq<char> {
    s.take(s.len() - trailing_run(s, |c: char| is_whitespace_char(c)))
}

/// `s` without the white space at either end.
pub open spec fn trimmed(s: Seq<char>) -> Seq<char> {
    trimmed_end(trimmed_start(s))
}

/// Position of the first space in `s`, or the length of `s` where it has none.
pub open spec fn first_space(s: Seq<char>) -> nat {
    leading_run(s, |c: char| is_not_space(c))
}

/// What stands in `s` before its first space: all of `s` where it has none.
pub open spec fn before_space(s: Seq<char>) -> Seq<char> {
    s.take(first_space(s) as int)
}

/// What stands in `s` after its first space: nothing where it has none.
pub open spec fn after_space(s: Seq<char>) -> Seq<char> {
    if first_space(s) < s.len() {
        s.skip(first_space(s) as int + 1)
    } else {
        Seq::empty()
    }
}

/// Whether `s` is wrapped in a pair of single quotes. A lone quote is not a pair.
pub open spec fn is_quoted(s: Seq<char>) -> bool {
    s.len() >= 2 && s[0] == '\'' && s[s.len() - 1] == '\''
}

/// `s` without the pair of single quotes that wraps it, if one does.
pub open spec fn unquoted(s: Seq<char>) -> Seq<char> {
    if is_quoted(s) {
        s.subrange(1, s.len() - 1)
    } else {
        s
    }
}

/// A run at the front is as long as the position of the first character that breaks it.
pub proof fn lemma_leading_run_is(s: Seq<char>, keep: spec_fn(char) -> bool, n: nat)
    requires
        n <= s.len(),
        forall|k: int| 0 <= k < n ==> keep(#[trigger] s[k]),
        n < s.len() ==> !keep(s[n as int]),
    ensures
        leading_run(s, keep) == n,
    decreases n,
{
    if n > 0 {
        let rest = s.drop_first();
        assert forall|k: int| 0 <= k < n - 1 implies keep(#[trigger] rest[k]) by {
            assert(rest[k] == s[k + 1]);
        }
        lemma_leading_run_is(rest, keep, (n - 1) as nat);
    }
}

/// A run at the back is as long as what follows the last character that breaks it.
pub proof fn lemma_trailing_run_is(s: Seq<char>, keep: spec_fn(char) -> bool, n: nat)
    requires
        n <= s.len(),
        forall|k: int| s.len() - n <= k < s.len() ==> keep(#[trigger] s[k]),
        n < s.len() ==> !keep(s[s.len() - n - 1]),
    ensures
        trailing_run(s, keep) == n,
    decreases n,
{
    if n > 0 {
        let rest = s.drop_last();
        assert forall|k: int| rest.len() - (n - 1) <= k < rest.len() implies keep(
            #[trigger] rest[k],
        ) by {
            assert(rest[k] == s[k]);
        }
        lemma_trailing_run_is(rest, keep, (n - 1) as nat);
    }
}

/// Every character of a run at the front satisfies `keep`, and the run ends
/// at the first character that does not.
pub proof fn lemma_leading_run_bounds(s: Seq<char>, keep: spec_fn(char) -> bool)
    ensures
        leading_run(s, keep) <= s.len(),
        forall|k: int| 0 <= k < leading_run(s, keep) ==> keep(#[trigger] s[k]),
        leading_run(s, keep) < s.len() ==> !keep(s[leading_run(s, keep) as int]),
    decreases s.len(),
{
    if s.len() > 0 && keep(s[0]) {
        let rest = s.drop_first();
        lemma_leading_run_bounds(rest, keep);
        assert forall|k: int| 0 <= k < leading_run(s, keep) implies keep(#[trigger] s[k]) by {
            if k > 0 {
                assert(s[k] == rest[k - 1]);
            }
        }
        if leading_run(s, keep) < s.len() {
            assert(s[leading_run(s, keep) as int] == rest[leading_run(rest, keep) as int]);
        }
    }
}

/// Every character of a run at the back satisfies `keep`, and the run begins
/// behind the last character that does not.
pub proof fn lemma_trailing_run_bounds(s: Seq<char>, keep: spec_fn(char) -> bool)
    ensures
        trailing_run(s, keep) <= s.len(),
        forall|k: int| s.len() - trailing_run(s, keep) <= k < s.len() ==> keep(#[trigger] s[k]),
        trailing_run(s, keep) < s.len() ==> !keep(s[s.len() - trailing_run(s, keep) - 1]),
    decreases s.len(),
{
    if s.len() > 0 && keep(s.last()) {
        let rest = s.drop_last();
        lemma_trailing_run_bounds(rest, keep);
        assert forall|k: int| s.len() - trailing_run(s, keep) <= k < s.len() implies keep(
            #[trigger] s[k],
        ) by {
            if k < s.len() - 1 {
                assert(s[k] == rest[k]);
            }
        }
        if trailing_run(s, keep) < s.len() {
            assert(s[s.len() - trailing_run(s, keep) - 1] == rest[rest.len() - trailing_run(
                rest,
                keep,
            ) - 1]);
        }
    }
}

/// Whether `s` holds no space.
pub open spec fn has_no_space(s: Seq<char>) -> bool {
    forall|i: int| 0 <= i < s.len() ==> is_not_space(#[trigger] s[i])
}

/// What is left of a text after trimming is no longer than the text and
/// neither begins nor ends with white space, and trimming it again changes
/// nothing.
pub proof fn lemma_trimmed_has_clean_ends(s: Seq<char>)
    ensures
        trimmed(s).len() <= s.len(),
        trimmed(s).len() > 0 ==> !is_whitespace_char(trimmed(s)[0]) && !is_whitespace_char(
            trimmed(s).last(),
        ),
        trimmed(trimmed(s)) == trimmed(s),
{
    let ws = |c: char| is_whitespace_char(c);
    let body = trimmed_start(s);
    let text = trimmed(s);
    lemma_leading_run_bounds(s, ws);
    lemma_trailing_run_bounds(body, ws);
    if text.len() > 0 {
        assert(text[0] == s[leading_run(s, ws) as int]);
        assert(text.last() == body[body.len() - trailing_run(body, ws) - 1]);
    }
    lemma_leading_run_is(text, ws, 0);
    assert(trimmed_start(text) =~= text);
    lemma_trailing_run_is(text, ws, 0);
    assert(trimmed_end(text) =~= text);
}

/// The split at the first space loses nothing but that space: what stands
/// before it holds no space, and a text with a space is its two parts with
/// one space between them. A text without a space is its own first part.
pub proof fn lemma_split_at_first_space(s: Seq<char>)
    ensures
        has_no_space(before_space(s)),
        first_space(s) < s.len() ==> s == before_space(s) + seq![' '] + after_space(s),
        first_space(s) >= s.len() ==> before_space(s) == s && after_space(s).len() == 0,
{
    lemma_leading_run_bounds(s, |c: char| is_not_space(c));
    if first_space(s) < s.len() {
        assert(s =~= before_space(s) + seq![' '] + after_space(s));
    } else {
        assert(before_space(s) =~= s);
    }
}

/// A text without a space and another text, joined by one space, split again
/// into the two.
pub proof fn lemma_joined_splits(head: Seq<char>, tail: Seq<char>)
    requires
        has_no_space(head),
    ensures
        before_space(head + seq![' '] + tail) == head,
        after_space(head + seq![' '] + tail) == tail,
{
    let joined = head + seq![' '] + tail;
    assert forall|i: int| 0 <= i < head.len() implies is_not_space(#[trigger] joined[i]) by {
        assert(joined[i] == head[i]);
    }
    assert(joined[head.len() as int] == ' ');
    lemma_leading_run_is(joined, |c: char| is_not_space(c), head.len());
    assert(joined.take(head.len() as int) =~= head);
    assert(joined.skip(head.len() as int + 1) =~= tail);
}

/// A trimmed line that is not empty begins with a word: what stands before
/// its first space is not empty.
pub proof fn lemma_trimmed_line_has_first_word(s: Seq<char>)
    requires
        trimmed(s).len() > 0,
    ensures
        before_space(trimmed(s)).len() > 0,
{
    lemma_trimmed_has_clean_ends(s);
    let line = trimmed(s);
    assert(is_not_space(line[0]));
    lemma_leading_run_bounds(line, |c: char| is_not_space(c));
    if first_space(line) == 0 {
        assert(!is_not_space(line[0]));
    }
}

/// Tells whether a character is white space.
pub fn is_whitespace(c: char) -> (b: bool)
    ensures
        b == is_whitespace_char(c),
{
    let u: u32 = c as u32;
    (0x09 <= u && u <= 0x0D) || u == 0x20 || u == 0x85 || u == 0xA0 || u == 0x1680 || (0x2000 <= u
        && u <= 0x200A) || u == 0x2028 || u == 0x2029 || u == 0x202F || u == 0x205F || u == 0x3000
}

/// Removes the white space at both ends of `s`.
pub fn trim<'a>(s: &'a str) -> (t: &'a str)
    ensures
        t@ == trimmed(s@),
{
    let len: usize = s.unicode_len();
    let mut i: usize = 0;
    // Where the text begins: the position of the first character that is no
    // white space, or `i` as long as none was seen.
    let mut start: usize = 0;
    // Where the text ends: just behind the last such character, or `start`.
    let mut end: usize = 0;
    for c in it: s.chars()
        invariant
            i == it.index(),
            it.seq() == s@,
            len == s@.len(),
            start <= end <= i,
            forall|k: int| 0 <= k < start ==> is_whitespace_char(#[trigger] s@[k]),
            forall|k: int| end <= k < i ==> is_whitespace_char(#[trigger] s@[k]),
            start == end ==> start == i,
            start < end ==> !is_whitespace_char(s@[start as int]) && !is_whitespace_char(
                s@[end - 1],
            ),
    {
        if is_whitespace(c) {
            if start == end {
                start = i + 1;
                end = i + 1;
            }
        } else {
            end = i + 1;
        }
        i = i + 1;
    }
    proof {
        let ws = |c: char| is_whitespace_char(c);
        lemma_leading_run_is(s@, ws, start as nat);
        let body = s@.skip(start as int);
        assert forall|k: int| body.len() - (len - end) <= k < body.len() implies ws(
            #[trigger] body[k],
        ) by {
            assert(body[k] == s@[k + start]);
        }
        if len - end < body.len() {
            assert(body[body.len() - (len - end) - 1] == s@[end - 1]);
        }
        lemma_trailing_run_is(body, ws, (len - end) as nat);
        assert(body.take(body.len() - (len - end)) =~= s@.subrange(start as int, end as int));
    }
    s.substring_char(start, end)
}

/// Splits `s` at its first space into what stands before it and what stands
/// after it. Without a space the first part is `s` and the second is empty.
pub fn split_at_space<'a>(s: &'a str) -> (parts: (&'a str, &'a str))
    ensures
        parts.0@ == before_space(s@),
        parts.1@ == after_space(s@),
{
    let len: usize = s.unicode_len();
    let mut i: usize = 0;
    let mut found: bool = false;
    let mut at: usize = 0;
    for c in it: s.chars()
        invariant
            i == it.index(),
            it.seq() == s@,
            len == s@.len(),
            found ==> at < i && s@[at as int] == ' ',
            !found ==> at == i,
            forall|k: int| 0 <= k < at ==> is_not_space(#[trigger] s@[k]),
    {
        if !found {
            if c == ' ' {
                found = true;
            } else {
                at = i + 1;
            }
        }
        i = i + 1;
    }
    proof {
        lemma_leading_run_is(s@, |c: char| is_not_space(c), at as nat);
    }
    if found {
        (s.substring_char(0, at), s.substring_char(at + 1, len))
    } else {
        (s, s.substring_char(len, len))
    }
}

/// Tells whether `s` is wrapped in a pair of single quotes.
pub fn is_wrapped_in_quotes(s: &str) -> (wrapped: bool)
    ensures
        wrapped == is_quoted(s@),
{
    let len: usize = s.unicode_len();
    len >= 2 && s.get_char(0) == '\'' && s.get_char(len - 1) == '\''
}

/// Removes the pair of single quotes that wraps `s`, if one does.
pub fn strip_quotes<'a>(s: &'a str) -> (inner: &'a str)
    ensures
        inner@ == unquoted(s@),
{
    if is_wrapped_in_quotes(s) {
        let len: usize = s.unicode_len();
        s.substring_char(1, len - 1)
    } else {
        s
    }
}

/// Normalises one argument: a text wrapped in a pair of single quotes loses
/// them, any other text, the empty one too, comes back as it is.
pub fn require_data(data: String) -> (out: String)
    ensures
        out@ == unquoted(data@),
{
    if is_wrapped_in_quotes(data.as_str()) {
        String::from_str(strip_quotes(data.as_str()))
    } else {
        data
    }
}

/// Tells whether two strings hold the same characters.
pub fn str_eq(a: &str, b: &str) -> (same: bool)
    ensures
        same == (a@ == b@),
{
    let x = a.as_bytes();
    let y = b.as_bytes();
    proof {
        // Two texts with the same encoding are the same text.
        vstd::utf8::encode_utf8_decode_utf8(a@);
        vstd::utf8::encode_utf8_decode_utf8(b@);
    }
    if x.len() != y.len() {
        return false;
    }
    let mut i: usize = 0;
    while i < x.len()
        invariant
            i <= x.len(),
            x.len() == y.len(),
            forall|k: int| 0 <= k < i ==> x@[k] == y@[k],
            x@ != y@ ==> a@ != b@,
        decreases x.len() - i,
    {
        if x[i] != y[i] {
            return false;
        }
        i = i + 1;
    }
    assert(x@ =~= y@);
    true
}

} // verus!

//! The tokenizer: one source line becomes a mnemonic and an operand string.
//!
//! The mnemonic is the first run of characters that are not whitespace. The
//! operand string is everything after the mnemonic with all whitespace taken
//! out, so that `r0, r1`, `r0,r1` and `r0 , r1` are the same operands. A line
//! without any token has an empty mnemonic and empty operands.

use vstd::prelude::*;
use vstd::string::StrSliceExecFns;
use vstd::string::StringExecFns;

verus! {

/// True of the characters that separate tokens: those that Unicode
/// classes as `White_Space`.
pub open spec fn is_space(c: char) -> bool {
    ||| '\u{9}' <= c <= '\u{d}'
    ||| c == ' '
    ||| c == '\u{85}'
    ||| c == '\u{a0}'
    ||| c == '\u{1680}'
    ||| '\u{2000}' <= c <= '\u{200a}'
    ||| c == '\u{2028}'
    ||| c == '\u{2029}'
    ||| c == '\u{202f}'
    ||| c == '\u{205f}'
    ||| c == '\u{3000}'
}

/// The first index at or after `from` whose character is not whitespace, or
/// the length of `s` if only whitespace follows.
pub open spec fn skip_spaces(s: Seq<char>, from: int) -> int
    decreases s.len() - from,
{
    if 0 <= from < s.len() && is_space(s[from]) {
        skip_spaces(s, from + 1)
    } else {
        from
    }
}

/// The first index at or after `from` whose character is whitespace, or the
/// length of `s` if no whitespace follows.
pub open spec fn skip_token(s: Seq<char>, from: int) -> int
    decreases s.len() - from,
{
    if 0 <= from < s.len() && !is_space(s[from]) {
        skip_token(s, from + 1)
    } else {
        from
    }
}

/// Where the mnemonic of `line` begins.
pub open spec fn mnemonic_start(line: Seq<char>) -> int {
    skip_spaces(line, 0)
}

/// Where the mnemonic of `line` ends.
pub open spec fn mnemonic_end(line: Seq<char>) -> int {
    skip_token(line, mnemonic_start(line))
}

/// The mnemonic of `line`: its first token, empty if it has none.
pub open spec fn mnemonic_of(line: Seq<char>) -> Seq<char> {
    line.subrange(mnemonic_start(line), mnemonic_end(line))
}

/// `s` with every whitespace character taken out.
pub open spec fn without_spaces(s: Seq<char>) -> Seq<char> {
    s.filter(|c: char| !is_space(c))
}

/// The operand string of `line`: what follows the mnemonic, without
/// whitespace.
pub open spec fn operands_of(line: Seq<char>) -> Seq<char> {
    without_spaces(line.skip(mnemonic_end(line)))
}

/// `skip_spaces` stops inside the string, passes only whitespace, and stops
/// at the end or on a character that is not whitespace.
pub proof fn lemma_skip_spaces(s: Seq<char>, from: int)
    requires
        0 <= from <= s.len(),
    ensures
        from <= skip_spaces(s, from) <= s.len(),
        forall|j: int| from <= j < skip_spaces(s, from) ==> is_space(#[trigger] s[j]),
        skip_spaces(s, from) < s.len() ==> !is_space(s[skip_spaces(s, from)]),
    decreases s.len() - from,
{
    if from < s.len() && is_space(s[from]) {
        lemma_skip_spaces(s, from + 1);
    }
}

/// `skip_token` stops inside the string, passes no whitespace, and stops at
/// the end or on a whitespace character.
pub proof fn lemma_skip_token(s: Seq<char>, from: int)
    requires
        0 <= from <= s.len(),
    ensures
        from <= skip_token(s, from) <= s.len(),
        forall|j: int| from <= j < skip_token(s, from) ==> !is_space(#[trigger] s[j]),
        skip_token(s, from) < s.len() ==> is_space(s[skip_token(s, from)]),
    decreases s.len() - from,
{
    if from < s.len() && !is_space(s[from]) {
        lemma_skip_token(s, from + 1);
    }
}

/// An index that only whitespace separates from `from`, and that is the end
/// or holds no whitespace, is where `skip_spaces` stops.
pub proof fn lemma_skip_spaces_is(s: Seq<char>, from: int, to: int)
    requires
        0 <= from <= to <= s.len(),
        forall|j: int| from <= j < to ==> is_space(#[trigger] s[j]),
        to < s.len() ==> !is_space(s[to]),
    ensures
        skip_spaces(s, from) == to,
    decreases to - from,
{
    if from < to {
        lemma_skip_spaces_is(s, from + 1, to);
    }
}

/// An index that no whitespace separates from `from`, and that is the end or
/// holds whitespace, is where `skip_token` stops.
pub proof fn lemma_skip_token_is(s: Seq<char>, from: int, to: int)
    requires
        0 <= from <= to <= s.len(),
        forall|j: int| from <= j < to ==> !is_space(#[trigger] s[j]),
        to < s.len() ==> is_space(s[to]),
    ensures
        skip_token(s, from) == to,
    decreases to - from,
{
    if from < to {
        lemma_skip_token_is(s, from + 1, to);
    }
}

/// Taking the whitespace out of whitespace leaves nothing.
pub proof fn lemma_without_spaces_of_spaces(s: Seq<char>)
    requires
        forall|j: int| 0 <= j < s.len() ==> is_space(#[trigger] s[j]),
    ensures
        without_spaces(s) == Seq::<char>::empty(),
    decreases s.len(),
{
    reveal(Seq::filter);
    if s.len() > 0 {
        lemma_without_spaces_of_spaces(s.drop_last());
    }
}

/// Taking the whitespace out of a string that has none changes nothing.
pub proof fn lemma_without_spaces_of_token(s: Seq<char>)
    requires
        forall|j: int| 0 <= j < s.len() ==> !is_space(#[trigger] s[j]),
    ensures
        without_spaces(s) == s,
    decreases s.len(),
{
    reveal(Seq::filter);
    if s.len() > 0 {
        lemma_without_spaces_of_token(s.drop_last());
        assert(s.drop_last().push(s.last()) == s);
    }
}

/// Taking the whitespace out of two strings in a row is taking it out of
/// each.
pub proof fn lemma_without_spaces_concat(a: Seq<char>, b: Seq<char>)
    ensures
        without_spaces(a + b) == without_spaces(a) + without_spaces(b),
{
    Seq::filter_distributes_over_add(a, b, |c: char| !is_space(c));
}

/// Whitespace around and within the operands does not matter: a whitespace
/// character put anywhere into a line, except inside its mnemonic, changes
/// neither the mnemonic nor the operand string.
pub proof fn lemma_inserted_space_is_ignored(line: Seq<char>, at: int, space: char)
    requires
        0 <= at <= line.len(),
        is_space(space),
        at <= mnemonic_start(line) || mnemonic_end(line) <= at,
    ensures
        mnemonic_of(line.insert(at, space)) == mnemonic_of(line),
        operands_of(line.insert(at, space)) == operands_of(line),
{
    let spaced = line.insert(at, space);
    let start = mnemonic_start(line);
    let end = mnemonic_end(line);
    lemma_skip_spaces(line, 0);
    lemma_skip_token(line, start);
    assert forall|j: int| 0 <= j < spaced.len() implies #[trigger] spaced[j] == (if j < at {
        line[j]
    } else if j == at {
        space
    } else {
        line[j - 1]
    }) by {}
    if at <= start {
        lemma_skip_spaces_is(spaced, 0, start + 1);
        lemma_skip_token_is(spaced, start + 1, end + 1);
        assert(spaced.subrange(start + 1, end + 1) == line.subrange(start, end));
        assert(spaced.skip(end + 1) == line.skip(end));
    } else {
        lemma_skip_spaces_is(spaced, 0, start);
        lemma_skip_token_is(spaced, start, end);
        assert(spaced.subrange(start, end) == line.subrange(start, end));
        let rest = line.skip(end);
        let before = rest.take(at - end);
        let after = rest.skip(at - end);
        assert(rest == before + after);
        assert(spaced.skip(end) == before + seq![space] + after);
        lemma_without_spaces_concat(before, after);
        lemma_without_spaces_concat(before + seq![space], after);
        lemma_without_spaces_concat(before, seq![space]);
        lemma_without_spaces_of_spaces(seq![space]);
    }
}

/// Tells whether `c` separates tokens.
pub fn is_whitespace(c: char) -> (r: bool)
    ensures
        r == is_space(c),
{
    ('\u{9}' <= c && c <= '\u{d}') || c == ' ' || c == '\u{85}' || c == '\u{a0}' || c == '\u{1680}'
        || ('\u{2000}' <= c && c <= '\u{200a}') || c == '\u{2028}' || c == '\u{2029}' || c
        == '\u{202f}' || c == '\u{205f}' || c == '\u{3000}'
}

/// The characters of `s`, in order.
pub fn chars_of(s: &str) -> (v: Vec<char>)
    ensures
        v@ == s@,
{
    let mut v: Vec<char> = Vec::new();
    for c in it: s.chars()
        invariant
            it.seq() == s@,
            v@ == it.seq().take(it.index()),
    {
        v.push(c);
    }
    v
}

/// Steps over the whitespace that begins at `from`.
pub fn scan_spaces(s: &[char], from: usize) -> (to: usize)
    requires
        from <= s@.len(),
    ensures
        to == skip_spaces(s@, from as int),
        from <= to <= s@.len(),
{
    let mut i = from;
    while i < s.len() && is_whitespace(s[i])
        invariant
            from <= i <= s@.len(),
            skip_spaces(s@, from as int) == skip_spaces(s@, i as int),
        decreases s@.len() - i,
    {
        i += 1;
    }
    i
}

/// Steps over the token that begins at `from`.
pub fn scan_token(s: &[char], from: usize) -> (to: usize)
    requires
        from <= s@.len(),
    ensures
        to == skip_token(s@, from as int),
        from <= to <= s@.len(),
{
    let mut i = from;
    while i < s.len() && !is_whitespace(s[i])
        invariant
            from <= i <= s@.len(),
            skip_token(s@, from as int) == skip_token(s@, i as int),
        decreases s@.len() - i,
    {
        i += 1;
    }
    i
}

/// Splits `line` into its mnemonic and its operand string.
pub fn tokenize(line: &str) -> (tokens: (String, String))
    ensures
        tokens.0@ == mnemonic_of(line@),
        tokens.1@ == operands_of(line@),
{
    let chars = chars_of(line);
    let n = chars.len();
    let start = scan_spaces(chars.as_slice(), 0);
    let end = scan_token(chars.as_slice(), start);
    let mnemonic = String::from_str(line.substring_char(start, end));
    let mut operands = String::new();
    let mut i = end;
    proof {
        assert(line@.subrange(end as int, end as int) == Seq::<char>::empty());
        lemma_without_spaces_of_spaces(Seq::<char>::empty());
    }
    while i < n
        invariant
            chars@ == line@,
            n == chars@.len(),
            end <= i <= n,
            operands@ == without_spaces(line@.subrange(end as int, i as int)),
        decreases n - i,
    {
        let a = scan_spaces(chars.as_slice(), i);
        let b = scan_token(chars.as_slice(), a);
        operands.append(line.substring_char(a, b));
        proof {
            lemma_skip_spaces(line@, i as int);
            lemma_skip_token(line@, a as int);
            let done = line@.subrange(end as int, i as int);
            let gap = line@.subrange(i as int, a as int);
            let token = line@.subrange(a as int, b as int);
            assert(line@.subrange(end as int, b as int) == done + gap + token);
            lemma_without_spaces_concat(done + gap, token);
            lemma_without_spaces_concat(done, gap);
            lemma_without_spaces_of_spaces(gap);
            lemma_without_spaces_of_token(token);
        }
        i = b;
    }
    assert(line@.subrange(end as int, n as int) == line@.skip(end as int));
    (mnemonic, operands)
}

} // verus!

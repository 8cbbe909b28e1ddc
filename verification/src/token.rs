//! Whitespace-delimited tokens of a line of text.

use vstd::prelude::*;
use vstd::std_specs::iter::IteratorSpec;
use vstd::string::StrSliceExecFns;

verus! {

/// The characters that separate tokens: those with the Unicode property
/// `White_Space`.
pub open spec fn is_space(c: char) -> bool {
    let u = c as u32;
    ||| 0x09 <= u <= 0x0D
    ||| u == 0x20
    ||| u == 0x85
    ||| u == 0xA0
    ||| u == 0x1680
    ||| 0x2000 <= u <= 0x200A
    ||| u == 0x2028
    ||| u == 0x2029
    ||| u == 0x202F
    ||| u == 0x205F
    ||| u == 0x3000
}

/// Tells whether `c` separates tokens.
pub fn is_separator(c: char) -> (b: bool)
    ensures
        b == is_space(c),
{
    let u: u32 = c as u32;
    (0x09 <= u && u <= 0x0D) || u == 0x20 || u == 0x85 || u == 0xA0 || u == 0x1680 || (0x2000 <= u
        && u <= 0x200A) || u == 0x2028 || u == 0x2029 || u == 0x202F || u == 0x205F || u == 0x3000
}

/// Length of the longest prefix of `s` that holds no separator.
pub open spec fn word_len(s: Seq<char>) -> nat
    decreases s.len(),
{
    if s.len() == 0 || is_space(s[0]) {
        0
    } else {
        1 + word_len(s.drop_first())
    }
}

/// The tokens of `s`, in order: its maximal runs of characters that are not
/// separators.
pub open spec fn tokens(s: Seq<char>) -> Seq<Seq<char>>
    decreases s.len(),
    via tokens_decreases
{
    if s.len() == 0 {
        Seq::empty()
    } else if is_space(s[0]) {
        tokens(s.drop_first())
    } else {
        seq![s.take(word_len(s) as int)] + tokens(s.skip(word_len(s) as int))
    }
}

#[via_fn]
proof fn tokens_decreases(s: Seq<char>) {
    lemma_word_len_bounds(s);
}

/// A word is no longer than the text it starts, and not empty where the text
/// starts with a character that is no separator.
pub proof fn lemma_word_len_bounds(s: Seq<char>)
    ensures
        word_len(s) <= s.len(),
        s.len() > 0 && !is_space(s[0]) ==> word_len(s) >= 1,
    decreases s.len(),
{
    if s.len() > 0 && !is_space(s[0]) {
        lemma_word_len_bounds(s.drop_first());
    }
}

/// The token at position `index` of `s`, counted from zero, if `s` has that many.
pub open spec fn token_at(s: Seq<char>, index: nat) -> Option<Seq<char>> {
    if index < tokens(s).len() {
        Some(tokens(s)[index as int])
    } else {
        None
    }
}

/// A run of characters that are no separators, starting at `from` and ending
/// at `to`, where the text ends or a separator stands, is the word that
/// starts at `from`.
proof fn lemma_word_run(s: Seq<char>, from: int, to: int)
    requires
        0 <= from <= to <= s.len(),
        forall|j: int| from <= j < to ==> !is_space(#[trigger] s[j]),
        to == s.len() || is_space(s[to]),
    ensures
        word_len(s.skip(from)) == to - from,
    decreases to - from,
{
    let t = s.skip(from);
    if from < to {
        assert(t[0] == s[from]);
        assert(t.drop_first() =~= s.skip(from + 1));
        lemma_word_run(s, from + 1, to);
    } else if to < s.len() {
        assert(t[0] == s[to]);
    }
}

/// The tokens of the text from `from` on, where a word runs from `from` to
/// `to`: that word, then the tokens of the text from `to` on.
proof fn lemma_tokens_after_word(s: Seq<char>, from: int, to: int)
    requires
        0 <= from < to <= s.len(),
        forall|j: int| from <= j < to ==> !is_space(#[trigger] s[j]),
        to == s.len() || is_space(s[to]),
    ensures
        tokens(s.skip(from)) == seq![s.subrange(from, to)] + tokens(s.skip(to)),
{
    let t = s.skip(from);
    lemma_word_run(s, from, to);
    assert(t[0] == s[from]);
    assert(t.take(to - from) =~= s.subrange(from, to));
    assert(t.skip(to - from) =~= s.skip(to));
}

/// A separator at `at` adds nothing to the tokens of the text from `at` on.
proof fn lemma_tokens_after_space(s: Seq<char>, at: int)
    requires
        0 <= at < s.len(),
        is_space(s[at]),
    ensures
        tokens(s.skip(at)) == tokens(s.skip(at + 1)),
{
    let t = s.skip(at);
    assert(t[0] == s[at]);
    assert(t.drop_first() =~= s.skip(at + 1));
}

/// A word: a text that is not empty and holds no separator.
pub open spec fn is_word(s: Seq<char>) -> bool {
    s.len() > 0 && forall|j: int| 0 <= j < s.len() ==> !is_space(#[trigger] s[j])
}

/// The first word of a text that starts with one holds no separator.
proof fn lemma_word_has_no_space(s: Seq<char>, j: int)
    requires
        0 <= j < word_len(s),
    ensures
        j < s.len(),
        !is_space(s[j]),
    decreases s.len(),
{
    if j > 0 {
        lemma_word_has_no_space(s.drop_first(), j - 1);
    }
}

/// Every token is a word.
pub proof fn lemma_tokens_are_words(s: Seq<char>)
    ensures
        forall|i: int| 0 <= i < tokens(s).len() ==> is_word(#[trigger] tokens(s)[i]),
    decreases s.len(),
{
    if s.len() == 0 {
        assert(tokens(s).len() == 0);
    } else if is_space(s[0]) {
        lemma_tokens_are_words(s.drop_first());
        assert(tokens(s) == tokens(s.drop_first()));
    } else {
        let n = word_len(s) as int;
        lemma_word_len_bounds(s);
        lemma_tokens_are_words(s.skip(n));
        assert forall|j: int| 0 <= j < n implies !is_space(#[trigger] s.take(n)[j]) by {
            lemma_word_has_no_space(s, j);
        }
        assert(is_word(s.take(n)));
        assert forall|i: int| 0 <= i < tokens(s).len() implies is_word(#[trigger] tokens(s)[i]) by {
            if i > 0 {
                assert(tokens(s)[i] == tokens(s.skip(n))[i - 1]);
            }
        }
    }
}

/// A word is its own and only token.
pub proof fn lemma_tokens_of_word(w: Seq<char>)
    requires
        is_word(w),
    ensures
        tokens(w) == seq![w],
{
    let n = w.len() as int;
    assert(w.skip(0) =~= w);
    lemma_word_run(w, 0, n);
    assert(w.take(n) =~= w);
    assert(tokens(w.skip(n)) =~= Seq::<Seq<char>>::empty());
    assert(tokens(w) =~= seq![w]);
}

/// The first word of a text ends where a separator is put after the text.
proof fn lemma_word_len_before_space(a: Seq<char>, c: char, b: Seq<char>)
    requires
        is_space(c),
    ensures
        word_len(a + seq![c] + b) == word_len(a),
    decreases a.len(),
{
    let s = a + seq![c] + b;
    if a.len() == 0 {
        assert(s[0] == c);
    } else {
        assert(s[0] == a[0]);
        if !is_space(a[0]) {
            assert(s.drop_first() =~= a.drop_first() + seq![c] + b);
            lemma_word_len_before_space(a.drop_first(), c, b);
        }
    }
}

/// A separator between two texts keeps their tokens apart: the tokens of the
/// whole are those of the first text, then those of the second.
pub proof fn lemma_tokens_around_space(a: Seq<char>, c: char, b: Seq<char>)
    requires
        is_space(c),
    ensures
        tokens(a + seq![c] + b) == tokens(a) + tokens(b),
    decreases a.len(),
{
    let s = a + seq![c] + b;
    if a.len() == 0 {
        assert(s[0] == c);
        assert(s.drop_first() =~= b);
        assert(tokens(a) + tokens(b) =~= tokens(b));
    } else {
        assert(s[0] == a[0]);
        if is_space(a[0]) {
            assert(s.drop_first() =~= a.drop_first() + seq![c] + b);
            lemma_tokens_around_space(a.drop_first(), c, b);
        } else {
            let n = word_len(a) as int;
            lemma_word_len_bounds(a);
            lemma_word_len_before_space(a, c, b);
            assert(s.take(n) =~= a.take(n));
            assert(s.skip(n) =~= a.skip(n) + seq![c] + b);
            lemma_tokens_around_space(a.skip(n), c, b);
            assert(tokens(s) =~= tokens(a) + tokens(b));
        }
    }
}

/// The token at position `index` of `line`, counted from zero; `None` where
/// the line has no more than `index` tokens.
pub fn nth_token<'a>(line: &'a str, index: usize) -> (token: Option<&'a str>)
    ensures
        match token {
            Some(t) => token_at(line@, index as nat) == Some(t@),
            None => token_at(line@, index as nat) is None,
        },
{
    let n = line.unicode_len();
    let mut chars = line.chars();
    let mut pos: usize = 0;
    let mut left: usize = index;
    let mut start: Option<usize> = None;
    assert(line@.skip(0) =~= line@);
    loop
        invariant
            n == line@.len(),
            pos <= n,
            chars.remaining() == line@.skip(pos as int),
            match start {
                Some(a) => {
                    &&& a < pos
                    &&& forall|j: int| a <= j < pos ==> !is_space(#[trigger] line@[j])
                    &&& token_at(line@, index as nat) == token_at(line@.skip(a as int), left as nat)
                },
                None => token_at(line@, index as nat) == token_at(
                    line@.skip(pos as int),
                    left as nat,
                ),
            },
        decreases n - pos,
    {
        match chars.next() {
            None => {
                return match start {
                    Some(a) => {
                        proof {
                            lemma_tokens_after_word(line@, a as int, n as int);
                        }
                        if left == 0 {
                            Some(line.substring_char(a, n))
                        } else {
                            None
                        }
                    },
                    None => None,
                };
            },
            Some(c) => {
                assert(c == line@[pos as int]);
                if is_separator(c) {
                    if let Some(a) = start {
                        proof {
                            lemma_tokens_after_word(line@, a as int, pos as int);
                        }
                        if left == 0 {
                            return Some(line.substring_char(a, pos));
                        }
                        left = left - 1;
                        start = None;
                    }
                    proof {
                        lemma_tokens_after_space(line@, pos as int);
                    }
                } else if start.is_none() {
                    start = Some(pos);
                }
                pos = pos + 1;
            },
        }
    }
}

} // verus!

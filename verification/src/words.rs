//! The words of a text.
//!
//! A text is modelled as a `Seq<char>`. A word is a longest stretch without
//! whitespace; whitespace in a row separates once, so no word is empty.

use vstd::prelude::*;

verus! {

/// The characters at which words are cut: those with the Unicode property
/// `White_Space`.
pub open spec fn whitespace(c: char) -> bool {
    let u = c as u32;
    ||| 0x09 <= u <= 0x0D
    ||| u == 0x20
    ||| u == 0x85
    ||| u == 0xA0
    ||| u == 0x1680
    ||| 0x2000 <= u <= 0x200A
    ||| u == 0x2028
    ||| u == 0x2029
    ||| u == 0x202F
    ||| u == 0x205F
    ||| u == 0x3000
}

/// The number of characters of `s` that stand before its first whitespace
/// character.
pub open spec fn word_len(s: Seq<char>) -> nat
    decreases s.len(),
{
    if s.len() == 0 || whitespace(s[0]) {
        0
    } else {
        1 + word_len(s.drop_first())
    }
}

/// The words of `s`: its longest stretches without whitespace, in order.
pub open spec fn words(s: Seq<char>) -> Seq<Seq<char>>
    decreases s.len(),
{
    if s.len() == 0 {
        Seq::empty()
    } else {
        let k = word_len(s) as int;
        let rest = if k < s.len() {
            words(s.skip(k + 1))
        } else {
            Seq::empty()
        };
        if k == 0 {
            rest
        } else {
            seq![s.take(k)] + rest
        }
    }
}

/// The number of words of `s`.
pub open spec fn word_count(s: Seq<char>) -> nat {
    words(s).len()
}

/// Whether no character of `w` is whitespace.
pub open spec fn whitespace_free(w: Seq<char>) -> bool {
    forall|j: int| 0 <= j < w.len() ==> !whitespace(w[j])
}

/// Whether `w` can be a word: it is not empty and holds no whitespace.
pub open spec fn is_word(w: Seq<char>) -> bool {
    w.len() > 0 && whitespace_free(w)
}

/// Whether a word of `s` begins at index `i`: a character that is not
/// whitespace, at the start of `s` or right after whitespace.
pub open spec fn starts_word(s: Seq<char>, i: int) -> bool {
    &&& 0 <= i < s.len()
    &&& !whitespace(s[i])
    &&& i == 0 || whitespace(s[i - 1])
}

/// The number of indices of `s` at which a word begins.
pub open spec fn word_start_count(s: Seq<char>) -> nat
    decreases s.len(),
{
    if s.len() == 0 {
        0
    } else {
        word_start_count(s.drop_last()) + if starts_word(s, s.len() - 1) {
            1nat
        } else {
            0nat
        }
    }
}

/// What is left of `s` when its whitespace is taken out.
pub open spec fn without_whitespace(s: Seq<char>) -> Seq<char>
    decreases s.len(),
{
    if s.len() == 0 {
        Seq::empty()
    } else if whitespace(s.last()) {
        without_whitespace(s.drop_last())
    } else {
        without_whitespace(s.drop_last()).push(s.last())
    }
}

/// The given words, one right after the other.
pub open spec fn joined(ws: Seq<Seq<char>>) -> Seq<char>
    decreases ws.len(),
{
    if ws.len() == 0 {
        Seq::empty()
    } else {
        ws[0] + joined(ws.drop_first())
    }
}

/// What [`word_len`] measures: a stretch without whitespace, up to the first
/// whitespace character or to the end of `s`.
pub proof fn lemma_word_len(s: Seq<char>)
    ensures
        word_len(s) <= s.len(),
        whitespace_free(s.take(word_len(s) as int)),
        word_len(s) < s.len() ==> whitespace(s[word_len(s) as int]),
    decreases s.len(),
{
    if s.len() == 0 || whitespace(s[0]) {
    } else {
        let t = s.drop_first();
        lemma_word_len(t);
        let k = word_len(s) as int;
        assert forall|i: int| 0 <= i < k implies !whitespace(s.take(k)[i]) by {
            if i > 0 {
                assert(s[i] == t.take(k - 1)[i - 1]);
            }
        }
        if k < s.len() {
            assert(s[k] == t[k - 1]);
        }
    }
}

/// Where `a` ends in whitespace or is empty, or `b` begins with whitespace
/// or is empty, the places where words begin in `a + b` are those of `a`
/// and those of `b`.
proof fn lemma_word_start_count_concat(a: Seq<char>, b: Seq<char>)
    requires
        a.len() == 0 || whitespace(a.last()) || b.len() == 0 || whitespace(b[0]),
    ensures
        word_start_count(a + b) == word_start_count(a) + word_start_count(b),
    decreases b.len(),
{
    if b.len() == 0 {
        assert(a + b =~= a);
    } else {
        assert((a + b).drop_last() =~= a + b.drop_last());
        lemma_word_start_count_concat(a, b.drop_last());
        let i = b.len() - 1;
        assert((a + b)[a.len() + i] == b[i]);
        if i > 0 {
            assert((a + b)[a.len() + i - 1] == b[i - 1]);
        } else if a.len() > 0 {
            assert((a + b)[a.len() - 1] == a.last());
        }
    }
}

/// In a stretch without whitespace one word begins, if it is not empty.
proof fn lemma_word_start_count_of_word(w: Seq<char>)
    requires
        whitespace_free(w),
    ensures
        word_start_count(w) == if w.len() == 0 {
            0nat
        } else {
            1nat
        },
    decreases w.len(),
{
    if w.len() > 0 {
        lemma_word_start_count_of_word(w.drop_last());
    }
}

/// There are as many words as there are places where a word begins.
pub proof fn lemma_word_count_by_starts(s: Seq<char>)
    ensures
        word_count(s) == word_start_count(s),
    decreases s.len(),
{
    if s.len() > 0 {
        lemma_word_len(s);
        let k = word_len(s) as int;
        let w = s.take(k);
        lemma_word_start_count_of_word(w);
        if k < s.len() {
            let rest = s.skip(k + 1);
            lemma_word_count_by_starts(rest);
            let head = w.push(s[k]);
            assert(head.drop_last() =~= w);
            assert(s =~= head + rest);
            lemma_word_start_count_concat(head, rest);
            assert(!starts_word(head, k));
        } else {
            assert(w =~= s);
        }
    }
}

/// The words of a text can be counted piece by piece, if no word runs
/// across a cut: at each cut, the piece before it ends in whitespace or
/// the piece behind it begins with whitespace, or one of the two is empty.
pub proof fn lemma_word_count_concat(a: Seq<char>, b: Seq<char>)
    requires
        a.len() == 0 || whitespace(a.last()) || b.len() == 0 || whitespace(b[0]),
    ensures
        word_count(a + b) == word_count(a) + word_count(b),
{
    lemma_word_count_by_starts(a);
    lemma_word_count_by_starts(b);
    lemma_word_count_by_starts(a + b);
    lemma_word_start_count_concat(a, b);
}

/// No word is empty, and none holds whitespace.
pub proof fn lemma_words_hold_no_whitespace(s: Seq<char>)
    ensures
        forall|i: int| 0 <= i < words(s).len() ==> is_word(#[trigger] words(s)[i]),
    decreases s.len(),
{
    if s.len() > 0 {
        lemma_word_len(s);
        let k = word_len(s) as int;
        let rest = if k < s.len() {
            words(s.skip(k + 1))
        } else {
            Seq::empty()
        };
        if k < s.len() {
            lemma_words_hold_no_whitespace(s.skip(k + 1));
        }
        assert forall|i: int| 0 <= i < words(s).len() implies is_word(#[trigger] words(s)[i]) by {
            if k > 0 && i > 0 {
                assert(words(s)[i] == rest[i - 1]);
            }
        }
    }
}

/// Whitespace is taken out piece by piece.
proof fn lemma_without_whitespace_concat(a: Seq<char>, b: Seq<char>)
    ensures
        without_whitespace(a + b) == without_whitespace(a) + without_whitespace(b),
    decreases b.len(),
{
    if b.len() == 0 {
        assert(a + b =~= a);
        assert(without_whitespace(a) + without_whitespace(b) =~= without_whitespace(a));
    } else {
        assert((a + b).drop_last() =~= a + b.drop_last());
        lemma_without_whitespace_concat(a, b.drop_last());
        let rest = without_whitespace(b.drop_last());
        assert((without_whitespace(a) + rest).push(b.last()) =~= without_whitespace(a)
            + rest.push(b.last()));
    }
}

/// Nothing is taken out of a stretch without whitespace.
proof fn lemma_without_whitespace_of_word(w: Seq<char>)
    requires
        whitespace_free(w),
    ensures
        without_whitespace(w) == w,
    decreases w.len(),
{
    if w.len() > 0 {
        lemma_without_whitespace_of_word(w.drop_last());
        assert(w.drop_last().push(w.last()) =~= w);
    } else {
        assert(w =~= Seq::<char>::empty());
    }
}

/// The words of a text, one right after the other, are the text without
/// its whitespace: the words hold every other character, in order.
pub proof fn lemma_words_give_text_back(s: Seq<char>)
    ensures
        joined(words(s)) == without_whitespace(s),
    decreases s.len(),
{
    if s.len() > 0 {
        lemma_word_len(s);
        let k = word_len(s) as int;
        let w = s.take(k);
        lemma_without_whitespace_of_word(w);
        if k < s.len() {
            let rest = s.skip(k + 1);
            lemma_words_give_text_back(rest);
            let head = w.push(s[k]);
            assert(head.drop_last() =~= w);
            assert(s =~= head + rest);
            lemma_without_whitespace_concat(head, rest);
            if k > 0 {
                assert(words(s).drop_first() =~= words(rest));
            } else {
                assert(w + without_whitespace(rest) =~= without_whitespace(rest));
            }
        } else {
            assert(w =~= s);
            assert(words(s).drop_first() =~= Seq::<Seq<char>>::empty());
            assert(joined(words(s).drop_first()) =~= Seq::<char>::empty());
            assert(joined(words(s)) =~= s);
        }
    }
}

/// A text has at most as many words as characters.
pub proof fn lemma_word_count_bound(s: Seq<char>)
    ensures
        word_count(s) <= s.len(),
    decreases s.len(),
{
    if s.len() > 0 {
        lemma_word_len(s);
        let k = word_len(s) as int;
        if k < s.len() {
            lemma_word_count_bound(s.skip(k + 1));
        }
    }
}

/// Whether `c` is whitespace.
pub fn is_whitespace(c: char) -> (b: bool)
    ensures
        b == whitespace(c),
{
    let u: u32 = c as u32;
    (0x09 <= u && u <= 0x0D) || u == 0x20 || u == 0x85 || u == 0xA0 || u == 0x1680 || (0x2000
        <= u && u <= 0x200A) || u == 0x2028 || u == 0x2029 || u == 0x202F || u == 0x205F || u
        == 0x3000
}

/// The number of words of a text, as a 32-bit counter: the counter wraps
/// around, so a text of 2^32 words or more gives the count modulo 2^32.
pub fn count_words(text: &str) -> (n: u32)
    ensures
        n == word_count(text@) % 0x1_0000_0000,
        word_count(text@) <= u32::MAX ==> n == word_count(text@),
{
    let mut starts: u32 = 0;
    let mut in_word = false;
    for c in it: text.chars()
        invariant
            it.seq() == text@,
            starts == word_start_count(text@.take(it.index() as int)) % 0x1_0000_0000,
            in_word == ({
                let seen = text@.take(it.index() as int);
                seen.len() > 0 && !whitespace(seen.last())
            }),
    {
        proof {
            let i = it.index() as int;
            assert(text@.take(i + 1).drop_last() =~= text@.take(i));
        }
        if is_whitespace(c) {
            in_word = false;
        } else {
            if !in_word {
                starts = starts.wrapping_add(1);
            }
            in_word = true;
        }
    }
    proof {
        assert(text@.take(text@.len() as int) =~= text@);
        lemma_word_count_by_starts(text@);
    }
    starts
}

} // verus!

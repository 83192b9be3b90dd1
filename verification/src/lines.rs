//! The lines of a text.
//!
//! A text is modelled as a `Seq<char>`. Every newline ends a line; what
//! stands behind the last newline is a line too, unless nothing stands
//! there. A carriage return is a character like any other.

use vstd::prelude::*;

verus! {

/// The number of characters of `s` that stand before its first newline.
pub open spec fn line_len(s: Seq<char>) -> nat
    decreases s.len(),
{
    if s.len() == 0 || s[0] == '\n' {
        0
    } else {
        1 + line_len(s.drop_first())
    }
}

/// The lines of `s`: the stretches between its newlines, in order. A
/// newline ends a line, so nothing follows a final newline, and the empty
/// text has no line.
pub open spec fn lines(s: Seq<char>) -> Seq<Seq<char>>
    decreases s.len(),
{
    if s.len() == 0 {
        Seq::empty()
    } else {
        let k = line_len(s) as int;
        let rest = if k < s.len() {
            lines(s.skip(k + 1))
        } else {
            Seq::empty()
        };
        seq![s.take(k)] + rest
    }
}

/// The number of lines of `s`.
pub open spec fn line_count(s: Seq<char>) -> nat {
    lines(s).len()
}

/// The number of newline characters in `s`.
pub open spec fn newline_count(s: Seq<char>) -> nat
    decreases s.len(),
{
    if s.len() == 0 {
        0
    } else {
        newline_count(s.drop_last()) + if s.last() == '\n' {
            1nat
        } else {
            0nat
        }
    }
}

/// Whether `s` ends in a line that no newline closes.
pub open spec fn ends_unterminated(s: Seq<char>) -> bool {
    s.len() > 0 && s.last() != '\n'
}

/// Whether no character of `l` is a newline.
pub open spec fn newline_free(l: Seq<char>) -> bool {
    forall|j: int| 0 <= j < l.len() ==> l[j] != '\n'
}

/// The text that is made of the given lines, each closed by a newline.
pub open spec fn terminated(ls: Seq<Seq<char>>) -> Seq<char>
    decreases ls.len(),
{
    if ls.len() == 0 {
        Seq::empty()
    } else {
        ls[0].push('\n') + terminated(ls.drop_first())
    }
}

/// What [`line_len`] measures: a stretch without a newline, up to the first
/// newline or to the end of `s`.
pub proof fn lemma_line_len(s: Seq<char>)
    ensures
        line_len(s) <= s.len(),
        newline_free(s.take(line_len(s) as int)),
        line_len(s) < s.len() ==> s[line_len(s) as int] == '\n',
    decreases s.len(),
{
    if s.len() == 0 || s[0] == '\n' {
    } else {
        let t = s.drop_first();
        lemma_line_len(t);
        let k = line_len(s) as int;
        assert forall|i: int| 0 <= i < k implies s.take(k)[i] != '\n' by {
            if i > 0 {
                assert(s[i] == t.take(k - 1)[i - 1]);
            }
        }
        if k < s.len() {
            assert(s[k] == t[k - 1]);
        }
    }
}

/// Newlines are counted piece by piece.
pub proof fn lemma_newline_count_concat(a: Seq<char>, b: Seq<char>)
    ensures
        newline_count(a + b) == newline_count(a) + newline_count(b),
    decreases b.len(),
{
    if b.len() == 0 {
        assert(a + b =~= a);
    } else {
        assert((a + b).drop_last() =~= a + b.drop_last());
        lemma_newline_count_concat(a, b.drop_last());
    }
}

/// A text without a newline has a newline count of zero.
proof fn lemma_newline_count_zero(s: Seq<char>)
    requires
        newline_free(s),
    ensures
        newline_count(s) == 0,
    decreases s.len(),
{
    if s.len() > 0 {
        lemma_newline_count_zero(s.drop_last());
    }
}

/// Every newline ends one line, and an unterminated rest is one line more.
pub proof fn lemma_line_count_by_newlines(s: Seq<char>)
    ensures
        line_count(s) == newline_count(s) + if ends_unterminated(s) {
            1nat
        } else {
            0nat
        },
    decreases s.len(),
{
    if s.len() > 0 {
        lemma_line_len(s);
        let k = line_len(s) as int;
        lemma_newline_count_zero(s.take(k));
        if k < s.len() {
            let rest = s.skip(k + 1);
            lemma_line_count_by_newlines(rest);
            let head = s.take(k).push('\n');
            assert(head.drop_last() =~= s.take(k));
            assert(s =~= head + rest);
            lemma_newline_count_concat(head, rest);
            if rest.len() > 0 {
                assert(rest.last() == s.last());
            }
        } else {
            assert(s.take(k) =~= s);
        }
    }
}

/// Behind a newline, and behind nothing, lines are counted afresh: the
/// lines of a text can be counted piece by piece, if each piece but the
/// last ends in a newline.
pub proof fn lemma_line_count_concat(a: Seq<char>, b: Seq<char>)
    requires
        !ends_unterminated(a),
    ensures
        line_count(a + b) == line_count(a) + line_count(b),
{
    lemma_line_count_by_newlines(a);
    lemma_line_count_by_newlines(b);
    lemma_line_count_by_newlines(a + b);
    lemma_newline_count_concat(a, b);
    if b.len() == 0 {
        assert(a + b =~= a);
    } else {
        assert((a + b).last() == b.last());
    }
}

/// No line holds a newline.
pub proof fn lemma_lines_hold_no_newline(s: Seq<char>)
    ensures
        forall|i: int| 0 <= i < lines(s).len() ==> newline_free(#[trigger] lines(s)[i]),
    decreases s.len(),
{
    if s.len() > 0 {
        lemma_line_len(s);
        let k = line_len(s) as int;
        let rest = if k < s.len() {
            lines(s.skip(k + 1))
        } else {
            Seq::empty()
        };
        if k < s.len() {
            lemma_lines_hold_no_newline(s.skip(k + 1));
        }
        assert forall|i: int| 0 <= i < lines(s).len() implies newline_free(
            #[trigger] lines(s)[i],
        ) by {
            if i > 0 {
                assert(lines(s)[i] == rest[i - 1]);
            }
        }
    }
}

/// The lines of a text, each closed by a newline, give the text back, with
/// the newline that an unterminated last line lacks.
pub proof fn lemma_lines_give_text_back(s: Seq<char>)
    ensures
        terminated(lines(s)) == if ends_unterminated(s) {
            s.push('\n')
        } else {
            s
        },
    decreases s.len(),
{
    if s.len() > 0 {
        lemma_line_len(s);
        let k = line_len(s) as int;
        let head = s.take(k).push('\n');
        if k < s.len() {
            let rest = s.skip(k + 1);
            lemma_lines_give_text_back(rest);
            assert(lines(s).drop_first() =~= lines(rest));
            assert(s =~= head + rest);
            if ends_unterminated(rest) {
                assert(s.push('\n') =~= head + rest.push('\n'));
            }
        } else {
            assert(s.take(k) =~= s);
            assert(lines(s).drop_first() =~= Seq::<Seq<char>>::empty());
            assert(terminated(lines(s).drop_first()) =~= Seq::<char>::empty());
            assert(terminated(lines(s)) =~= head);
        }
    }
}

/// A text has at most as many lines as characters.
pub proof fn lemma_line_count_bound(s: Seq<char>)
    ensures
        line_count(s) <= s.len(),
    decreases s.len(),
{
    if s.len() > 0 {
        lemma_line_len(s);
        let k = line_len(s) as int;
        if k < s.len() {
            lemma_line_count_bound(s.skip(k + 1));
        }
    }
}

/// The number of lines of a text, as a 32-bit counter: the counter wraps
/// around, so a text of 2^32 lines or more gives the count modulo 2^32.
pub fn count_lines(text: &str) -> (n: u32)
    ensures
        n == line_count(text@) % 0x1_0000_0000,
        line_count(text@) <= u32::MAX ==> n == line_count(text@),
{
    let mut newlines: u32 = 0;
    let mut unterminated = false;
    for c in it: text.chars()
        invariant
            it.seq() == text@,
            newlines == newline_count(text@.take(it.index() as int)) % 0x1_0000_0000,
            unterminated == ends_unterminated(text@.take(it.index() as int)),
    {
        proof {
            let i = it.index() as int;
            assert(text@.take(i + 1).drop_last() =~= text@.take(i));
        }
        if c == '\n' {
            newlines = newlines.wrapping_add(1);
            unterminated = false;
        } else {
            unterminated = true;
        }
    }
    proof {
        assert(text@.take(text@.len() as int) =~= text@);
        lemma_line_count_by_newlines(text@);
    }
    if unterminated {
        newlines.wrapping_add(1)
    } else {
        newlines
    }
}

} // verus!

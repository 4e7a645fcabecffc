//! Fuzzy matching of a project name against a search query.
//!
//! A name matches a query when the query's characters occur in the name in
//! the same order, not necessarily side by side. Upper and lower case are
//! different characters.

use fuzzy_matcher::skim::SkimMatcherV2;
use vstd::prelude::*;
use vstd::std_specs::iter::IteratorSpec;
use vstd::string::*;

verus! {

/// The characters of `pattern` occur in `text`, in order.
pub open spec fn is_subsequence(pattern: Seq<char>, text: Seq<char>) -> bool
    decreases text.len(),
{
    if pattern.len() == 0 {
        true
    } else if text.len() == 0 {
        false
    } else {
        ||| (pattern[0] == text[0] && is_subsequence(pattern.skip(1), text.skip(1)))
        ||| is_subsequence(pattern, text.skip(1))
    }
}

/// The longest name and query, in characters, that are handed to the skim
/// scorer. Its scores are 32-bit sums that grow with both lengths; below this
/// bound they stay far from the ends of that range.
pub const MAX_SCORED_CHARS: usize = 1_000_000;

/// What occurs in the rest of a text occurs in the text.
pub proof fn lemma_subsequence_of_rest(pattern: Seq<char>, text: Seq<char>)
    requires
        text.len() > 0,
        is_subsequence(pattern, text.skip(1)),
    ensures
        is_subsequence(pattern, text),
{
}

/// Where a pattern occurs, the pattern without its first character occurs
/// too.
pub proof fn lemma_subsequence_without_first(pattern: Seq<char>, text: Seq<char>)
    requires
        pattern.len() > 0,
        is_subsequence(pattern, text),
    ensures
        is_subsequence(pattern.skip(1), text),
    decreases text.len(),
{
    if text.len() > 0 {
        if pattern[0] == text[0] && is_subsequence(pattern.skip(1), text.skip(1)) {
            lemma_subsequence_of_rest(pattern.skip(1), text);
        } else {
            lemma_subsequence_without_first(pattern, text.skip(1));
            lemma_subsequence_of_rest(pattern.skip(1), text);
        }
    }
}

/// Taking the first possible match loses nothing: where pattern and text
/// begin with the same character, the pattern occurs exactly if its rest
/// occurs in the rest of the text.
pub proof fn lemma_subsequence_first_match(pattern: Seq<char>, text: Seq<char>)
    requires
        pattern.len() > 0,
        text.len() > 0,
        pattern[0] == text[0],
    ensures
        is_subsequence(pattern, text) == is_subsequence(pattern.skip(1), text.skip(1)),
{
    if is_subsequence(pattern, text.skip(1)) {
        lemma_subsequence_without_first(pattern, text.skip(1));
    }
}

/// A pattern that is longer than the text does not occur in it.
pub proof fn lemma_subsequence_is_no_longer(pattern: Seq<char>, text: Seq<char>)
    requires
        is_subsequence(pattern, text),
    ensures
        pattern.len() <= text.len(),
    decreases text.len(),
{
    if pattern.len() > 0 && text.len() > 0 {
        if pattern[0] == text[0] && is_subsequence(pattern.skip(1), text.skip(1)) {
            lemma_subsequence_is_no_longer(pattern.skip(1), text.skip(1));
        } else {
            lemma_subsequence_is_no_longer(pattern, text.skip(1));
        }
    }
}

/// Every text occurs in itself.
pub proof fn lemma_subsequence_reflexive(text: Seq<char>)
    ensures
        is_subsequence(text, text),
    decreases text.len(),
{
    if text.len() > 0 {
        lemma_subsequence_reflexive(text.skip(1));
    }
}

/// `positions` shows an occurrence of `pattern` in `text`: one place in the
/// text for each character of the pattern, holding that character, the
/// places rising with the pattern.
pub open spec fn is_occurrence(positions: Seq<int>, pattern: Seq<char>, text: Seq<char>) -> bool {
    &&& positions.len() == pattern.len()
    &&& forall|i: int|
        0 <= i < positions.len() ==> 0 <= #[trigger] positions[i] < text.len()
            && text[positions[i]] == pattern[i]
    &&& forall|i: int, j: int|
        #![trigger positions[i], positions[j]]
        0 <= i < j < positions.len() ==> positions[i] < positions[j]
}

/// A pattern that occurs in a text has an occurrence in it.
pub proof fn lemma_subsequence_has_occurrence(pattern: Seq<char>, text: Seq<char>) -> (positions:
    Seq<int>)
    requires
        is_subsequence(pattern, text),
    ensures
        is_occurrence(positions, pattern, text),
    decreases text.len(),
{
    if pattern.len() == 0 {
        Seq::empty()
    } else if pattern[0] == text[0] && is_subsequence(pattern.skip(1), text.skip(1)) {
        let rest = lemma_subsequence_has_occurrence(pattern.skip(1), text.skip(1));
        let positions = Seq::new(pattern.len(), |i: int| if i == 0 { 0 } else { rest[i - 1] + 1 });
        assert forall|i: int| 0 <= i < positions.len() implies 0 <= #[trigger] positions[i]
            < text.len() && text[positions[i]] == pattern[i] by {
            if i > 0 {
                assert(0 <= rest[i - 1] < text.skip(1).len());
                assert(text.skip(1)[rest[i - 1]] == pattern.skip(1)[i - 1]);
            }
        }
        assert forall|i: int, j: int| 0 <= i < j < positions.len() implies positions[i]
            < positions[j] by {
            assert(0 <= rest[j - 1]);
            if i > 0 {
                assert(rest[i - 1] < rest[j - 1]);
            }
        }
        positions
    } else {
        let rest = lemma_subsequence_has_occurrence(pattern, text.skip(1));
        let positions = Seq::new(pattern.len(), |i: int| rest[i] + 1);
        assert forall|i: int| 0 <= i < positions.len() implies 0 <= #[trigger] positions[i]
            < text.len() && text[positions[i]] == pattern[i] by {
            assert(0 <= rest[i] < text.skip(1).len());
            assert(text.skip(1)[rest[i]] == pattern[i]);
        }
        assert forall|i: int, j: int| 0 <= i < j < positions.len() implies positions[i]
            < positions[j] by {
            assert(rest[i] < rest[j]);
        }
        positions
    }
}

/// A pattern that has an occurrence in a text occurs in it.
pub proof fn lemma_occurrence_is_subsequence(
    positions: Seq<int>,
    pattern: Seq<char>,
    text: Seq<char>,
)
    requires
        is_occurrence(positions, pattern, text),
    ensures
        is_subsequence(pattern, text),
    decreases text.len(),
{
    if pattern.len() > 0 {
        assert(0 <= positions[0] < text.len());
        if positions[0] == 0 {
            let rest = Seq::new((pattern.len() - 1) as nat, |i: int| positions[i + 1] - 1);
            assert forall|i: int| 0 <= i < rest.len() implies 0 <= #[trigger] rest[i]
                < text.skip(1).len() && text.skip(1)[rest[i]] == pattern.skip(1)[i] by {
                assert(positions[0] < positions[i + 1]);
                assert(text[positions[i + 1]] == pattern[i + 1]);
            }
            assert forall|i: int, j: int| 0 <= i < j < rest.len() implies rest[i] < rest[j] by {
                assert(positions[i + 1] < positions[j + 1]);
            }
            lemma_occurrence_is_subsequence(rest, pattern.skip(1), text.skip(1));
        } else {
            let moved = Seq::new(pattern.len(), |i: int| positions[i] - 1);
            assert forall|i: int| 0 <= i < moved.len() implies 0 <= #[trigger] moved[i]
                < text.skip(1).len() && text.skip(1)[moved[i]] == pattern[i] by {
                if i > 0 {
                    assert(positions[0] < positions[i]);
                }
                assert(text[positions[i]] == pattern[i]);
            }
            assert forall|i: int, j: int| 0 <= i < j < moved.len() implies moved[i] < moved[j] by {
                assert(positions[i] < positions[j]);
            }
            lemma_occurrence_is_subsequence(moved, pattern, text.skip(1));
        }
    }
}

/// Calls `SkimMatcherV2::fuzzy` of fuzzy_matcher, on a fresh matcher set to
/// respect case, and reports whether it found a match. Trusted: the matcher
/// returns a score exactly when the characters of `pattern` occur in
/// `choice` in order, compared as they are; an empty pattern always matches.
/// The bound on the lengths keeps its 32-bit scores from overflowing.
#[verifier::external_body]
fn skim_accepts(choice: &str, pattern: &str) -> (accepted: bool)
    requires
        choice@.len() <= MAX_SCORED_CHARS,
        pattern@.len() <= MAX_SCORED_CHARS,
    ensures
        accepted == is_subsequence(pattern@, choice@),
{
    SkimMatcherV2::default().respect_case().fuzzy(choice, pattern, false).is_some()
}

/// Decides by one pass over `text` whether `pattern` occurs in it.
fn scan_subsequence(text: &str, pattern: &str) -> (found: bool)
    ensures
        found == is_subsequence(pattern@, text@),
{
    broadcast use group_string_axioms;

    let mut wanted = pattern.chars();
    let mut given = text.chars();
    let ghost mut j: int = 0;
    let ghost mut i: int = 0;
    let mut next_wanted: Option<char> = wanted.next();
    proof {
        if pattern@.len() > 0 {
            assert(pattern@.skip(0).drop_first() == pattern@.skip(1));
        }
        assert(pattern@.skip(0) == pattern@);
        assert(text@.skip(0) == text@);
    }
    loop
        invariant
            wanted.obeys_prophetic_iter_laws(),
            given.obeys_prophetic_iter_laws(),
            0 <= j <= pattern@.len(),
            0 <= i <= text@.len(),
            given.remaining() == text@.skip(i),
            next_wanted is None <==> j == pattern@.len(),
            next_wanted is Some ==> next_wanted->Some_0 == pattern@[j] && wanted.remaining()
                == pattern@.skip(j + 1),
            is_subsequence(pattern@, text@) == is_subsequence(pattern@.skip(j), text@.skip(i)),
        decreases text@.len() - i,
    {
        let want = match next_wanted {
            Some(want) => want,
            None => {
                return true;
            },
        };
        match given.next() {
            Some(c) => {
                proof {
                    let p = pattern@.skip(j);
                    let t = text@.skip(i);
                    assert(t.skip(1) == text@.skip(i + 1));
                    assert(p.skip(1) == pattern@.skip(j + 1));
                    assert(t.drop_first() == t.skip(1));
                    assert(p[0] == want && t[0] == c);
                    if c == want {
                        lemma_subsequence_first_match(p, t);
                    }
                }
                if c == want {
                    next_wanted = wanted.next();
                    proof {
                        if j + 1 < pattern@.len() {
                            assert(pattern@.skip(j + 1).drop_first() == pattern@.skip(j + 2));
                            assert(pattern@.skip(j + 1)[0] == pattern@[j + 1]);
                        }
                        j = j + 1;
                    }
                }
                proof {
                    i = i + 1;
                }
            },
            None => {
                assert(text@.skip(i).len() == 0);
                return false;
            },
        }
    }
}

/// Whether `name` matches `query`: whether the characters of `query` occur
/// in `name` in order. The empty query matches every name.
pub fn fuzzy_matches(name: &str, query: &str) -> (matched: bool)
    ensures
        matched == is_subsequence(query@, name@),
{
    if name.unicode_len() <= MAX_SCORED_CHARS && query.unicode_len() <= MAX_SCORED_CHARS {
        skim_accepts(name, query)
    } else {
        scan_subsequence(name, query)
    }
}

} // verus!

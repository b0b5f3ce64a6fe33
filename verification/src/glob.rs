//! Wildcard patterns: `*` stands for any run of characters, every other character
//! for itself.

use vstd::prelude::*;

verus! {

/// Whether `text` matches `pattern`, where each `*` in the pattern matches any run of
/// characters (an empty one too) and every other character matches itself.
pub open spec fn glob_match(pattern: Seq<char>, text: Seq<char>) -> bool
    decreases pattern.len() + text.len(),
{
    if pattern.len() == 0 {
        text.len() == 0
    } else if pattern.last() == '*' {
        glob_match(pattern.drop_last(), text) || (text.len() > 0 && glob_match(
            pattern,
            text.drop_last(),
        ))
    } else {
        text.len() > 0 && pattern.last() == text.last() && glob_match(
            pattern.drop_last(),
            text.drop_last(),
        )
    }
}

/// A pattern without `*` matches exactly itself.
pub proof fn lemma_literal_pattern(pattern: Seq<char>, text: Seq<char>)
    requires
        !pattern.contains('*'),
    ensures
        glob_match(pattern, text) == (pattern == text),
    decreases pattern.len(),
{
    if pattern.len() == 0 {
        assert(glob_match(pattern, text) == (text.len() == 0));
        assert((text.len() == 0) == (pattern =~= text));
    } else {
        assert(pattern.contains(pattern.last()));
        assert forall|c: char| pattern.drop_last().contains(c) implies pattern.contains(c) by {
            let k = choose|k: int| 0 <= k < pattern.drop_last().len() && pattern.drop_last()[k] == c;
            assert(pattern[k] == c);
        }
        if text.len() > 0 {
            lemma_literal_pattern(pattern.drop_last(), text.drop_last());
            if pattern.drop_last() == text.drop_last() && pattern.last() == text.last() {
                assert(pattern =~= pattern.drop_last().push(pattern.last()));
                assert(text =~= text.drop_last().push(text.last()));
            }
        }
    }
}

/// Matches `text` against `pattern` by filling, for one more character of the text at a
/// time, the row that says which prefixes of the pattern match the text read so far.
pub fn wildcard_match(pattern: &Vec<char>, text: &Vec<char>) -> (r: bool)
    ensures
        r == glob_match(pattern@, text@),
{
    let m: usize = pattern.len();
    let mut row: Vec<bool> = Vec::new();
    row.push(true);
    assert(pattern@.take(0).len() == 0);
    assert(text@.take(0).len() == 0);
    let mut j: usize = 0;
    while j < m
        invariant
            m == pattern.len(),
            j <= m,
            row.len() == j + 1,
            forall|k: int|
                0 <= k <= j ==> row@[k] == glob_match(#[trigger] pattern@.take(k), text@.take(0)),
        decreases m - j,
    {
        let cell: bool = row[j] && pattern[j] == '*';
        proof {
            let p = pattern@.take(j + 1);
            assert(p.last() == pattern@[j as int]);
            assert(p.drop_last() == pattern@.take(j as int));
            assert(text@.take(0).len() == 0);
        }
        row.push(cell);
        j += 1;
    }
    let mut i: usize = 0;
    while i < text.len()
        invariant
            m == pattern.len(),
            i <= text.len(),
            row.len() == m + 1,
            forall|k: int|
                0 <= k <= m ==> row@[k] == glob_match(
                    #[trigger] pattern@.take(k),
                    text@.take(i as int),
                ),
        decreases text.len() - i,
    {
        let c: char = text[i];
        let mut next: Vec<bool> = Vec::new();
        next.push(false);
        assert(pattern@.take(0).len() == 0);
        assert(text@.take(i + 1).len() > 0);
        let mut j: usize = 0;
        while j < m
            invariant
                m == pattern.len(),
                i < text.len(),
                c == text@[i as int],
                j <= m,
                row.len() == m + 1,
                next.len() == j + 1,
                forall|k: int|
                    0 <= k <= m ==> row@[k] == glob_match(
                        #[trigger] pattern@.take(k),
                        text@.take(i as int),
                    ),
                forall|k: int|
                    0 <= k <= j ==> next@[k] == glob_match(
                        #[trigger] pattern@.take(k),
                        text@.take(i + 1),
                    ),
            decreases m - j,
        {
            let pc: char = pattern[j];
            let cell: bool = if pc == '*' {
                next[j] || row[j + 1]
            } else {
                row[j] && pc == c
            };
            proof {
                let p = pattern@.take(j + 1);
                let t = text@.take(i + 1);
                assert(p.last() == pc);
                assert(p.drop_last() == pattern@.take(j as int));
                assert(t.last() == c);
                assert(t.drop_last() == text@.take(i as int));
            }
            next.push(cell);
            j += 1;
        }
        row = next;
        i += 1;
    }
    assert(pattern@.take(m as int) == pattern@);
    assert(text@.take(text.len() as int) == text@);
    row[m]
}

} // verus!

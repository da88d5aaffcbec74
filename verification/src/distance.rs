//! How far two texts are apart: edit distance and the share of the longer
//! text that it amounts to.

use crate::text::chars_of;
use vstd::prelude::*;

verus! {

/// The least of three numbers.
pub open spec fn min3(x: nat, y: nat, z: nat) -> nat {
    if x <= y && x <= z {
        x
    } else if y <= z {
        y
    } else {
        z
    }
}

/// The edit distance of `a` and `b`: the least number of insertions,
/// deletions and substitutions of single characters that turns one into the
/// other.
pub open spec fn edit_distance(a: Seq<char>, b: Seq<char>) -> nat
    decreases a.len() + b.len(),
{
    if a.len() == 0 {
        b.len()
    } else if b.len() == 0 {
        a.len()
    } else {
        let change: nat = if a.last() == b.last() {
            0
        } else {
            1
        };
        min3(
            edit_distance(a.drop_last(), b) + 1,
            edit_distance(a, b.drop_last()) + 1,
            edit_distance(a.drop_last(), b.drop_last()) + change,
        )
    }
}

/// The longer of two lengths.
pub open spec fn longer(x: nat, y: nat) -> nat {
    if x >= y {
        x
    } else {
        y
    }
}

/// No more edits are needed than the longer text has characters.
pub proof fn edit_distance_bounded(a: Seq<char>, b: Seq<char>)
    ensures
        edit_distance(a, b) <= longer(a.len(), b.len()),
    decreases a.len() + b.len(),
{
    if a.len() != 0 && b.len() != 0 {
        edit_distance_bounded(a.drop_last(), b.drop_last());
    }
}

/// Two texts are at distance 0 exactly when they are the same text.
pub proof fn edit_distance_zero_iff_equal(a: Seq<char>, b: Seq<char>)
    ensures
        edit_distance(a, b) == 0 <==> a == b,
    decreases a.len() + b.len(),
{
    if a.len() == 0 || b.len() == 0 {
        if a.len() == 0 && b.len() == 0 {
            assert(a =~= b);
        }
    } else {
        edit_distance_zero_iff_equal(a.drop_last(), b.drop_last());
        if a == b {
            assert(edit_distance(a.drop_last(), b.drop_last()) == 0);
        }
        if edit_distance(a, b) == 0 {
            assert(a.drop_last() == b.drop_last());
            assert(a =~= a.drop_last().push(a.last()));
            assert(b =~= b.drop_last().push(b.last()));
        }
    }
}

/// The edit distance of two runs of characters. One row of the table is kept:
/// while a row is filled, the entries to the left belong to the new row and
/// the entries to the right to the one before.
pub fn edit_distance_of_chars(a: &[char], b: &[char]) -> (distance: usize)
    ensures
        distance == edit_distance(a@, b@),
        distance <= longer(a@.len(), b@.len()),
{
    let len1 = a.len();
    let len2 = b.len();
    proof {
        edit_distance_bounded(a@, b@);
    }
    if len1 == 0 {
        return len2;
    }
    if len2 == 0 {
        return len1;
    }
    let mut row: Vec<usize> = Vec::new();
    let mut j: usize = 0;
    while j < len2
        invariant
            len2 == b.len(),
            j <= len2,
            row.len() == j,
            forall|k: int| 0 <= k < j ==> row@[k] == k + 1,
        decreases len2 - j,
    {
        row.push(j + 1);
        j += 1;
    }
    proof {
        assert forall|k: int| 0 <= k < len2 implies row@[k] == edit_distance(
            a@.take(0),
            #[trigger] b@.take(k + 1),
        ) by {}
    }
    let mut i: usize = 0;
    while i < len1
        invariant
            len1 == a.len(),
            len2 == b.len(),
            0 < len2,
            i <= len1,
            row.len() == len2,
            forall|k: int|
                0 <= k < len2 ==> row@[k] == edit_distance(
                    a@.take(i as int),
                    #[trigger] b@.take(k + 1),
                ),
        decreases len1 - i,
    {
        let mut left: usize = i + 1;
        let mut diagonal: usize = i;
        let mut j: usize = 0;
        while j < len2
            invariant
                len1 == a.len(),
                len2 == b.len(),
                i < len1,
                j <= len2,
                row.len() == len2,
                left == edit_distance(a@.take(i + 1), b@.take(j as int)),
                diagonal == edit_distance(a@.take(i as int), b@.take(j as int)),
                forall|k: int|
                    0 <= k < j ==> row@[k] == edit_distance(
                        a@.take(i + 1),
                        #[trigger] b@.take(k + 1),
                    ),
                forall|k: int|
                    j <= k < len2 ==> row@[k] == edit_distance(
                        a@.take(i as int),
                        #[trigger] b@.take(k + 1),
                    ),
            decreases len2 - j,
        {
            let above = row[j];
            let change: usize = if a[i] == b[j] {
                0
            } else {
                1
            };
            proof {
                let x = a@.take(i + 1);
                let y = b@.take(j + 1);
                assert(x.drop_last() =~= a@.take(i as int));
                assert(y.drop_last() =~= b@.take(j as int));
                assert(x.last() == a@[i as int]);
                assert(y.last() == b@[j as int]);
                edit_distance_bounded(x, y);
                assert(above == edit_distance(a@.take(i as int), b@.take(j + 1)));
            }
            let mut best = left.saturating_add(1);
            let delete = above.saturating_add(1);
            let replace = diagonal.saturating_add(change);
            if delete < best {
                best = delete;
            }
            if replace < best {
                best = replace;
            }
            diagonal = above;
            left = best;
            row.set(j, best);
            j += 1;
        }
        i += 1;
    }
    proof {
        assert(a@.take(len1 as int) =~= a@);
        assert(b@.take(len2 - 1 + 1) =~= b@);
    }
    row[len2 - 1]
}

/// The edit distance of two texts, counted in characters.
pub fn levenshtein_distance(s1: &str, s2: &str) -> (distance: usize)
    ensures
        distance == edit_distance(s1@, s2@),
        distance <= longer(s1@.len(), s2@.len()),
{
    let a = chars_of(s1);
    let b = chars_of(s2);
    edit_distance_of_chars(a.as_slice(), b.as_slice())
}

/// How much of a text has changed: `distance` edits, measured against the
/// `longest` of the two texts, both counted in characters. The score is
/// their quotient, and 0 where both texts are empty.
#[derive(Clone, Copy, Debug, PartialEq, Eq)]
pub struct ChangeMagnitude {
    pub distance: usize,
    pub longest: usize,
}

impl ChangeMagnitude {
    /// Whether the score is 0: nothing has changed.
    pub open spec fn is_zero(self) -> bool {
        self.distance == 0
    }

    /// Whether the score is 1: every character of the longer text counts as
    /// changed.
    pub open spec fn is_one(self) -> bool {
        self.longest > 0 && self.distance == self.longest
    }
}

/// The change between two texts: their edit distance, over the length of the
/// longer one.
pub fn detect_changes(old_text: &str, new_text: &str) -> (magnitude: ChangeMagnitude)
    ensures
        magnitude.distance == edit_distance(old_text@, new_text@),
        magnitude.longest == longer(old_text@.len(), new_text@.len()),
        magnitude.distance <= magnitude.longest,
        magnitude.is_zero() <==> old_text@ == new_text@,
{
    let a = chars_of(old_text);
    let b = chars_of(new_text);
    let distance = edit_distance_of_chars(a.as_slice(), b.as_slice());
    let longest = if a.len() >= b.len() {
        a.len()
    } else {
        b.len()
    };
    proof {
        edit_distance_zero_iff_equal(old_text@, new_text@);
    }
    ChangeMagnitude { distance, longest }
}

} // verus!

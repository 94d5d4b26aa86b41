//! Sort keys of the tables: numbers and names, with what is missing last.

use vstd::prelude::*;

use crate::order::Ranked;
use crate::text::chars_of;

verus! {

/// A number that may be missing. A missing one stands behind every other,
/// whichever way the table is turned.
#[derive(Clone, Copy, Debug)]
pub struct NumKey {
    pub rank: Option<i128>,
}

/// The key of a value in a table that ascends or descends.
pub open spec fn num_key(value: Option<i64>, desc: bool) -> NumKey {
    NumKey {
        rank: match value {
            Some(v) => Some(
                (if desc {
                    -v
                } else {
                    v as int
                }) as i128,
            ),
            None => None,
        },
    }
}

impl NumKey {
    /// The key of a value in a table that ascends or descends.
    pub fn of(value: Option<i64>, desc: bool) -> (k: NumKey)
        ensures
            k == num_key(value, desc),
    {
        match value {
            Some(v) => if desc {
                NumKey { rank: Some(-(v as i128)) }
            } else {
                NumKey { rank: Some(v as i128) }
            },
            None => NumKey { rank: None },
        }
    }
}

impl Ranked for NumKey {
    open spec fn before(&self, other: &Self) -> bool {
        match (self.rank, other.rank) {
            (Some(a), Some(b)) => a < b,
            (Some(_), None) => true,
            (None, _) => false,
        }
    }

    fn is_before(&self, other: &Self) -> (r: bool) {
        match (self.rank, other.rank) {
            (Some(a), Some(b)) => a < b,
            (Some(_), None) => true,
            (None, _) => false,
        }
    }

    proof fn lemma_asymmetric(a: &Self, b: &Self) {
    }

    proof fn lemma_transitive(a: &Self, b: &Self, c: &Self) {
    }
}

/// True when `a` comes ahead of `b` by the code points of its characters.
pub open spec fn text_less(a: Seq<char>, b: Seq<char>) -> bool
    decreases a.len(),
{
    if b.len() == 0 {
        false
    } else if a.len() == 0 {
        true
    } else {
        (a[0] as u32) < (b[0] as u32) || (a[0] == b[0] && text_less(a.drop_first(), b.drop_first()))
    }
}

proof fn lemma_char_same(a: char, b: char)
    requires
        a as u32 == b as u32,
    ensures
        a == b,
{
}

/// Two texts never come ahead of each other.
pub proof fn lemma_text_asymmetric(a: Seq<char>, b: Seq<char>)
    ensures
        !(text_less(a, b) && text_less(b, a)),
    decreases a.len(),
{
    if a.len() > 0 && b.len() > 0 {
        lemma_text_asymmetric(a.drop_first(), b.drop_first());
    }
}

/// Not coming behind is transitive.
pub proof fn lemma_text_transitive(a: Seq<char>, b: Seq<char>, c: Seq<char>)
    requires
        !text_less(b, a),
        !text_less(c, b),
    ensures
        !text_less(c, a),
    decreases a.len() + b.len() + c.len(),
{
    if a.len() > 0 && b.len() > 0 && c.len() > 0 {
        if a[0] as u32 == b[0] as u32 {
            lemma_char_same(a[0], b[0]);
        }
        if b[0] as u32 == c[0] as u32 {
            lemma_char_same(b[0], c[0]);
        }
        if a[0] == b[0] && b[0] == c[0] {
            lemma_text_transitive(a.drop_first(), b.drop_first(), c.drop_first());
        }
    }
}

/// Decides which of two texts comes first.
pub fn is_text_less(a: &Vec<char>, b: &Vec<char>) -> (r: bool)
    ensures
        r == text_less(a@, b@),
{
    let mut i: usize = 0;
    assert(a@.skip(0) =~= a@);
    assert(b@.skip(0) =~= b@);
    while i < a.len() && i < b.len()
        invariant
            i <= a@.len(),
            i <= b@.len(),
            text_less(a@, b@) == text_less(a@.skip(i as int), b@.skip(i as int)),
        decreases a@.len() - i,
    {
        let ghost x = a@.skip(i as int);
        let ghost y = b@.skip(i as int);
        assert(x[0] == a@[i as int] && y[0] == b@[i as int]);
        assert(x.drop_first() =~= a@.skip(i + 1));
        assert(y.drop_first() =~= b@.skip(i + 1));
        if a[i] != b[i] {
            proof {
                if a@[i as int] as u32 == b@[i as int] as u32 {
                    lemma_char_same(a@[i as int], b@[i as int]);
                }
            }
            return (a[i] as u32) < (b[i] as u32);
        }
        i = i + 1;
    }
    i < b.len()
}

/// The characters of an optional name.
pub fn name_chars(name: Option<&str>) -> (r: Option<Vec<char>>)
    ensures
        match name {
            Some(s) => r matches Some(v) && v@ == s@,
            None => r is None,
        },
{
    match name {
        Some(s) => Some(chars_of(s)),
        None => None,
    }
}

/// A name in a table that runs from A to Z; a missing one comes last.
#[derive(Debug)]
pub struct NameUp {
    pub name: Option<Vec<char>>,
}

impl Ranked for NameUp {
    open spec fn before(&self, other: &Self) -> bool {
        match (self.name, other.name) {
            (Some(a), Some(b)) => text_less(a@, b@),
            (Some(_), None) => true,
            (None, _) => false,
        }
    }

    fn is_before(&self, other: &Self) -> (r: bool) {
        match (&self.name, &other.name) {
            (Some(a), Some(b)) => is_text_less(a, b),
            (Some(_), None) => true,
            (None, _) => false,
        }
    }

    proof fn lemma_asymmetric(a: &Self, b: &Self) {
        if a.name is Some && b.name is Some {
            lemma_text_asymmetric(a.name->0@, b.name->0@);
        }
    }

    proof fn lemma_transitive(a: &Self, b: &Self, c: &Self) {
        if a.name is Some && b.name is Some && c.name is Some {
            lemma_text_transitive(a.name->0@, b.name->0@, c.name->0@);
        }
    }
}

/// A name in a table that runs from Z to A; a missing one comes last all the
/// same.
#[derive(Debug)]
pub struct NameDown {
    pub name: Option<Vec<char>>,
}

impl Ranked for NameDown {
    open spec fn before(&self, other: &Self) -> bool {
        match (self.name, other.name) {
            (Some(a), Some(b)) => text_less(b@, a@),
            (Some(_), None) => true,
            (None, _) => false,
        }
    }

    fn is_before(&self, other: &Self) -> (r: bool) {
        match (&self.name, &other.name) {
            (Some(a), Some(b)) => is_text_less(b, a),
            (Some(_), None) => true,
            (None, _) => false,
        }
    }

    proof fn lemma_asymmetric(a: &Self, b: &Self) {
        if a.name is Some && b.name is Some {
            lemma_text_asymmetric(a.name->0@, b.name->0@);
        }
    }

    proof fn lemma_transitive(a: &Self, b: &Self, c: &Self) {
        if a.name is Some && b.name is Some && c.name is Some {
            lemma_text_transitive(c.name->0@, b.name->0@, a.name->0@);
        }
    }
}

/// Texts are ordered by the first character in which they differ, and a text
/// stands ahead of every longer one that begins with it.
pub proof fn law_the_first_difference_decides(p: Seq<char>, a: Seq<char>, b: Seq<char>)
    ensures
        a.len() > 0 && b.len() > 0 && (a[0] as u32) < (b[0] as u32) ==> text_less(p + a, p + b)
            && !text_less(p + b, p + a),
        b.len() > 0 ==> text_less(p, p + b) && !text_less(p + b, p),
        !text_less(p, p),
    decreases p.len(),
{
    if p.len() > 0 {
        let q = p.drop_first();
        law_the_first_difference_decides(q, a, b);
        assert((p + a).drop_first() =~= q + a);
        assert((p + b).drop_first() =~= q + b);
    } else {
        assert(p + a =~= a);
        assert(p + b =~= b);
    }
}

/// A table that ascends puts the smaller number first, one that descends the
/// larger; a missing number comes last in both.
pub proof fn law_missing_numbers_come_last(a: i64, b: i64)
    ensures
        num_key(Some(a), false).before(&num_key(Some(b), false)) == (a < b),
        num_key(Some(a), true).before(&num_key(Some(b), true)) == (a > b),
        num_key(Some(a), false).before(&num_key(None, false)),
        num_key(Some(a), true).before(&num_key(None, true)),
        !num_key(None, false).before(&num_key(Some(a), false)),
        !num_key(None, true).before(&num_key(Some(a), true)),
{
}

} // verus!

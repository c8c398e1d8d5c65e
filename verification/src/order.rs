//! The order in which texts sort: character by character, by code point, a
//! proper prefix first. Dates written `YYYY-MM-DD` sort chronologically in it.

use vstd::prelude::*;
use vstd::string::*;

verus! {

/// `a` and `b` agree on their first `k` characters, and at position `k` either
/// `a` ends while `b` goes on, or `a` holds the smaller character.
pub open spec fn precedes_at(a: Seq<char>, b: Seq<char>, k: int) -> bool {
    &&& 0 <= k <= a.len()
    &&& k <= b.len()
    &&& forall|j: int| 0 <= j < k ==> a[j] == b[j]
    &&& ((k == a.len() && k < b.len()) || (k < a.len() && k < b.len() && (a[k] as u32) < (
    b[k] as u32)))
}

/// `a` sorts strictly before `b`.
pub open spec fn text_lt(a: Seq<char>, b: Seq<char>) -> bool {
    exists|k: int| precedes_at(a, b, k)
}

/// Outcome of comparing two texts.
#[derive(Debug, Clone, Copy, PartialEq, Eq, Structural)]
pub enum TextOrder {
    Before,
    Same,
    After,
}

/// A text does not sort before itself: texts in strict order differ.
pub proof fn lemma_lt_distinct(a: Seq<char>, b: Seq<char>)
    requires
        text_lt(a, b),
    ensures
        a != b,
{
    let k = choose|k: int| precedes_at(a, b, k);
    assert(precedes_at(a, b, k));
}

/// The order is transitive.
pub proof fn lemma_lt_transitive(a: Seq<char>, b: Seq<char>, c: Seq<char>)
    requires
        text_lt(a, b),
        text_lt(b, c),
    ensures
        text_lt(a, c),
{
    let k1 = choose|k: int| precedes_at(a, b, k);
    let k2 = choose|k: int| precedes_at(b, c, k);
    assert(precedes_at(a, b, k1));
    assert(precedes_at(b, c, k2));
    if k1 <= k2 {
        assert(precedes_at(a, c, k1));
    } else {
        assert(precedes_at(a, c, k2));
    }
}

/// Compares two texts character by character.
pub fn compare_text(a: &str, b: &str) -> (r: TextOrder)
    ensures
        r == TextOrder::Before <==> text_lt(a@, b@),
        r == TextOrder::Same <==> a@ == b@,
        r == TextOrder::After <==> text_lt(b@, a@),
{
    let n = a.unicode_len();
    let m = b.unicode_len();
    let mut i: usize = 0;
    let mut r = TextOrder::Same;
    while i < n && i < m && r == TextOrder::Same
        invariant
            i <= n,
            i <= m,
            n == a@.len(),
            m == b@.len(),
            forall|j: int| 0 <= j < i ==> a@[j] == b@[j],
            r == TextOrder::Before ==> i < n && i < m && (a@[i as int] as u32) < (b@[i as int] as u32),
            r == TextOrder::After ==> i < n && i < m && (b@[i as int] as u32) < (a@[i as int] as u32),
        decreases (n - i) + (if r == TextOrder::Same { 1int } else { 0int }),
    {
        let x = a.get_char(i);
        let y = b.get_char(i);
        if x == y {
            i += 1;
        } else if (x as u32) < (y as u32) {
            r = TextOrder::Before;
        } else {
            r = TextOrder::After;
        }
    }
    if r == TextOrder::Same {
        if n < m {
            r = TextOrder::Before;
        } else if m < n {
            r = TextOrder::After;
        } else {
            assert(a@ =~= b@);
        }
    }
    proof {
        if r == TextOrder::Before {
            assert(precedes_at(a@, b@, i as int));
        }
        if r == TextOrder::After {
            assert(precedes_at(b@, a@, i as int));
        }
        if text_lt(a@, b@) {
            lemma_lt_distinct(a@, b@);
            if text_lt(b@, a@) {
                lemma_lt_transitive(a@, b@, a@);
                lemma_lt_distinct(a@, a@);
            }
        }
        if text_lt(b@, a@) {
            lemma_lt_distinct(b@, a@);
        }
    }
    r
}

} // verus!

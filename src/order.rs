//! Comparison of element sequences: equality element by element, and the
//! lexicographic order.
use vstd::prelude::*;

use crate::tree::derefs;
use core::cmp::Ordering;
use vstd::std_specs::cmp::{PartialEqSpec, PartialOrdSpec};

verus! {

/// `a` and `b` have the same length and equal elements at each position.
pub open spec fn elems_eq<T: PartialEqSpec>(a: Seq<T>, b: Seq<T>) -> bool {
    &&& a.len() == b.len()
    &&& forall|k: int| 0 <= k < a.len() ==> (#[trigger] a[k]).eq_spec(&b[k])
}

/// The lexicographic comparison of `a` and `b`: the first pair of elements
/// that is not equal decides; if one is a prefix of the other, the shorter
/// is less.
pub open spec fn lex_cmp<T: PartialOrdSpec>(a: Seq<T>, b: Seq<T>) -> Option<Ordering>
    decreases a.len(),
{
    if a.len() == 0 || b.len() == 0 {
        Some(
            if a.len() < b.len() {
                Ordering::Less
            } else if a.len() == b.len() {
                Ordering::Equal
            } else {
                Ordering::Greater
            },
        )
    } else {
        match a[0].partial_cmp_spec(&b[0]) {
            Some(Ordering::Equal) => lex_cmp(a.drop_first(), b.drop_first()),
            c => c,
        }
    }
}

/// Compares two borrowed sequences element by element.
pub(crate) fn eq_elems<T: PartialEq>(a: &Vec<&T>, b: &Vec<&T>) -> (r: bool)
    ensures
        T::obeys_eq_spec() ==> (r == elems_eq(derefs(a@), derefs(b@))),
{
    if a.len() != b.len() {
        return false;
    }
    let mut j: usize = 0;
    while j < a.len()
        invariant
            a@.len() == b@.len(),
            j <= a@.len(),
            T::obeys_eq_spec() ==> forall|k: int| 0 <= k < j ==> (#[trigger] derefs(a@)[k]).eq_spec(&derefs(b@)[k]),
        decreases a@.len() - j,
    {
        let x: &T = a[j];
        let y: &T = b[j];
        if !x.eq(y) {
            assert(derefs(a@)[j as int] == *x);
            return false;
        }
        j = j + 1;
    }
    true
}

proof fn lemma_lex_skip<T: PartialOrdSpec>(a: Seq<T>, b: Seq<T>, j: int)
    requires
        0 <= j < a.len(),
        j < b.len(),
        a[j].partial_cmp_spec(&b[j]) == Some(Ordering::Equal),
    ensures
        lex_cmp(a.skip(j), b.skip(j)) == lex_cmp(a.skip(j + 1), b.skip(j + 1)),
{
    assert(a.skip(j).drop_first() =~= a.skip(j + 1));
    assert(b.skip(j).drop_first() =~= b.skip(j + 1));
}

/// Compares two borrowed sequences lexicographically.
pub(crate) fn cmp_elems<T: PartialOrd>(a: &Vec<&T>, b: &Vec<&T>) -> (r: Option<Ordering>)
    ensures
        T::obeys_partial_cmp_spec() ==> (r == lex_cmp(derefs(a@), derefs(b@))),
{
    let ghost sa = derefs(a@);
    let ghost sb = derefs(b@);
    let n = if a.len() < b.len() { a.len() } else { b.len() };
    let mut j: usize = 0;
    assert(sa.skip(0) =~= sa);
    assert(sb.skip(0) =~= sb);
    while j < n
        invariant
            n <= a@.len(),
            n <= b@.len(),
            n == a@.len() || n == b@.len(),
            j <= n,
            sa == derefs(a@),
            sb == derefs(b@),
            T::obeys_partial_cmp_spec() ==> lex_cmp(sa, sb) == lex_cmp(sa.skip(j as int), sb.skip(j as int)),
        decreases n - j,
    {
        let x: &T = a[j];
        let y: &T = b[j];
        let c = x.partial_cmp(y);
        match c {
            Some(Ordering::Equal) => {
                proof {
                    if T::obeys_partial_cmp_spec() {
                        lemma_lex_skip(sa, sb, j as int);
                    }
                }
                j = j + 1;
            },
            _ => {
                assert(sa.skip(j as int)[0] == sa[j as int]);
                assert(sb.skip(j as int)[0] == sb[j as int]);
                return c;
            },
        }
    }
    if a.len() < b.len() {
        Some(Ordering::Less)
    } else if a.len() == b.len() {
        Some(Ordering::Equal)
    } else {
        Some(Ordering::Greater)
    }
}

} // verus!

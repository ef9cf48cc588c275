//! Laws of the rope operations, stated over the outcomes that the contracts
//! of `insert` and `delete` pin down, and proved.
use vstd::prelude::*;

use crate::error::RopeError;
use crate::{delete_outcome, excised, insert_outcome, spliced};

verus! {

/// One edit of a sequence.
pub enum Edit<T> {
    /// Insert `xs` before index `at`.
    Insert { at: usize, xs: Seq<T> },
    /// Delete the positions `start` up to, not including, `end`.
    Delete { start: usize, end: usize },
}

/// The outcome that one edit of `s` owes.
pub open spec fn apply<T>(s: Seq<T>, op: Edit<T>) -> Result<Seq<T>, RopeError> {
    match op {
        Edit::Insert { at, xs } => insert_outcome(s, at, xs),
        Edit::Delete { start, end } => delete_outcome(s, start, end),
    }
}

/// The outcome of applying `ops` to `s` in turn, stopping at the first
/// rejected edit.
pub open spec fn replay<T>(s: Seq<T>, ops: Seq<Edit<T>>) -> Result<Seq<T>, RopeError>
    decreases ops.len(),
{
    if ops.len() == 0 {
        Ok(s)
    } else {
        match apply(s, ops[0]) {
            Ok(t) => replay(t, ops.drop_first()),
            Err(e) => Err(e),
        }
    }
}

/// An insertion at a valid index places `xs` between the elements before
/// `i` and those from `i` on, and adds the length of `xs` to the length.
pub proof fn lemma_insert_splices<T>(s: Seq<T>, i: usize, xs: Seq<T>)
    requires
        i <= s.len(),
    ensures
        insert_outcome(s, i, xs) == Ok::<Seq<T>, RopeError>(
            s.subrange(0, i as int) + xs + s.subrange(i as int, s.len() as int),
        ),
        spliced(s, i as int, xs).len() == s.len() + xs.len(),
{
}

/// A deletion of a valid range keeps the elements before `start` followed
/// by those from `end` on, and takes `end - start` off the length.
pub proof fn lemma_delete_excises<T>(s: Seq<T>, start: usize, end: usize)
    requires
        start <= end <= s.len(),
    ensures
        delete_outcome(s, start, end) == Ok::<Seq<T>, RopeError>(
            s.subrange(0, start as int) + s.subrange(end as int, s.len() as int),
        ),
        excised(s, start as int, end as int).len() == s.len() - (end - start),
{
}

/// Inserting nothing, or deleting an empty range, at a valid index leaves
/// the sequence as it was.
pub proof fn lemma_identities<T>(s: Seq<T>, i: usize)
    requires
        i <= s.len(),
    ensures
        insert_outcome(s, i, Seq::<T>::empty()) == Ok::<Seq<T>, RopeError>(s),
        delete_outcome(s, i, i) == Ok::<Seq<T>, RopeError>(s),
{
    assert(spliced(s, i as int, Seq::<T>::empty()) =~= s);
    assert(excised(s, i as int, i as int) =~= s);
}

/// Deleting what was just inserted gives back the sequence it started from.
pub proof fn lemma_insert_then_delete<T>(s: Seq<T>, i: usize, xs: Seq<T>)
    requires
        i <= s.len(),
        s.len() + xs.len() <= usize::MAX,
    ensures
        ({
            let t = spliced(s, i as int, xs);
            &&& insert_outcome(s, i, xs) == Ok::<Seq<T>, RopeError>(t)
            &&& delete_outcome(t, i, (i + xs.len()) as usize) == Ok::<Seq<T>, RopeError>(s)
        }),
{
    let t = spliced(s, i as int, xs);
    assert(excised(t, i as int, i + xs.len()) =~= s);
}

/// An insertion fails exactly when its index lies past the end; a deletion
/// fails exactly when its range is reversed or ends past the end.
pub proof fn lemma_failures<T>(s: Seq<T>, i: usize, xs: Seq<T>, start: usize, end: usize)
    ensures
        insert_outcome(s, i, xs) is Err <==> i > s.len(),
        delete_outcome(s, start, end) is Err <==> (start > end || end > s.len()),
{
}

/// Two ropes that start with the same elements, one kept as a tree and one
/// flat, agree after every prefix of any run of edits: on success, on the
/// error, and on the elements, and so on the length and on emptiness.
pub proof fn lemma_lockstep<T>(tree: crate::Rope<T>, flat: crate::naive::Rope<T>, ops: Seq<Edit<T>>)
    requires
        tree@ == flat@,
    ensures
        forall|k: int|
            0 <= k <= ops.len() ==> #[trigger] replay(tree@, ops.take(k)) == replay(flat@, ops.take(k)),
{
}

} // verus!

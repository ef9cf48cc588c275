//! The binary tree behind a rope, with its split, join and flatten.
use vstd::prelude::*;

use crate::error::RopeError;

verus! {

/// Which of the two results of a split a bypassed subtree belongs to.
pub(crate) enum Direction {
    Left,
    Right,
}

/// The elements of `e` if it is tagged with the given side, else nothing.
pub(crate) open spec fn on_side<T>(e: (Repr<T>, Direction), left: bool) -> Seq<T> {
    match e.1 {
        Direction::Left => if left { e.0.flat() } else { Seq::empty() },
        Direction::Right => if left { Seq::empty() } else { e.0.flat() },
    }
}

/// The elements of the subtrees tagged `Left`, in the order they were pushed.
pub(crate) open spec fn lefts<T>(w: Seq<(Repr<T>, Direction)>) -> Seq<T>
    decreases w.len(),
{
    if w.len() == 0 {
        Seq::empty()
    } else {
        lefts(w.drop_last()) + on_side(w.last(), true)
    }
}

/// The elements of the subtrees tagged `Right`, the last pushed first.
pub(crate) open spec fn rights<T>(w: Seq<(Repr<T>, Direction)>) -> Seq<T>
    decreases w.len(),
{
    if w.len() == 0 {
        Seq::empty()
    } else {
        on_side(w.last(), false) + rights(w.drop_last())
    }
}

/// The values behind a sequence of references.
pub open spec fn derefs<T>(s: Seq<&T>) -> Seq<T> {
    s.map_values(|x: &T| *x)
}

/// The elements of the subtrees on a stack, the top first.
pub(crate) open spec fn pending<T>(w: Seq<&Repr<T>>) -> Seq<T>
    decreases w.len(),
{
    if w.len() == 0 {
        Seq::empty()
    } else {
        w.last().flat() + pending(w.drop_last())
    }
}

/// The number of nodes in the subtrees on a stack.
pub(crate) open spec fn pending_nodes<T>(w: Seq<&Repr<T>>) -> nat
    decreases w.len(),
{
    if w.len() == 0 {
        0
    } else {
        w.last().nodes() + pending_nodes(w.drop_last())
    }
}

proof fn lemma_push<T>(w: Seq<(Repr<T>, Direction)>, e: (Repr<T>, Direction))
    ensures
        lefts(w.push(e)) == lefts(w) + on_side(e, true),
        rights(w.push(e)) == on_side(e, false) + rights(w),
{
    assert(w.push(e).drop_last() =~= w);
}

/// A node of the tree: a leaf holding a run of elements, or a branch with
/// two children and the cached number of elements below it.
#[derive(Debug)]
pub(crate) enum Repr<T> {
    Leaf(Vec<T>),
    Node(Box<Repr<T>>, usize, Box<Repr<T>>),
}

impl<T> Repr<T> {
    /// The elements of the tree, left to right.
    pub(crate) open spec fn flat(&self) -> Seq<T>
        decreases self,
    {
        match self {
            Repr::Leaf(xs) => xs@,
            Repr::Node(l, _, r) => l.flat() + r.flat(),
        }
    }

    /// Every cached count is the size of its subtree, no branch has an empty
    /// child, and the whole fits in a `usize`.
    pub(crate) open spec fn wf(&self) -> bool
        decreases self,
    {
        match self {
            Repr::Leaf(xs) => xs@.len() <= usize::MAX,
            Repr::Node(l, n, r) => {
                &&& l.wf()
                &&& r.wf()
                &&& l.flat().len() > 0
                &&& r.flat().len() > 0
                &&& *n == l.flat().len() + r.flat().len()
            },
        }
    }

    /// The number of nodes on the longest path from here to a leaf.
    pub(crate) open spec fn height(&self) -> nat
        decreases self,
    {
        match self {
            Repr::Leaf(_) => 0,
            Repr::Node(l, _, r) => {
                let (hl, hr) = (l.height(), r.height());
                1 + if hl >= hr { hl } else { hr }
            },
        }
    }

    /// The number of nodes in the tree.
    pub(crate) open spec fn nodes(&self) -> nat
        decreases self,
    {
        match self {
            Repr::Leaf(_) => 1,
            Repr::Node(l, _, r) => 1 + l.nodes() + r.nodes(),
        }
    }

    pub(crate) proof fn lemma_wf_len(&self)
        requires
            self.wf(),
        ensures
            self.flat().len() <= usize::MAX,
    {
    }

    /// An empty leaf.
    pub(crate) fn new() -> (r: Self)
        ensures
            r.wf(),
            r.flat() == Seq::<T>::empty(),
    {
        Repr::Leaf(Vec::new())
    }

    /// The number of elements in the tree.
    pub(crate) fn len(&self) -> (n: usize)
        requires
            self.wf(),
        ensures
            n == self.flat().len(),
    {
        match self {
            Repr::Leaf(xs) => xs.len(),
            Repr::Node(_, n, _) => *n,
        }
    }

    /// Joins two trees, returning one of them unchanged when the other is
    /// empty.
    pub(crate) fn node(left: Self, right: Self) -> (r: Self)
        requires
            left.wf(),
            right.wf(),
            left.flat().len() + right.flat().len() <= usize::MAX,
        ensures
            r.wf(),
            r.flat() == left.flat() + right.flat(),
    {
        let a = left.len();
        let b = right.len();
        if a == 0 {
            assert(left.flat() + right.flat() =~= right.flat());
            right
        } else if b == 0 {
            assert(left.flat() + right.flat() =~= left.flat());
            left
        } else {
            Repr::Node(Box::new(left), a + b, Box::new(right))
        }
    }

    /// Splits the tree into the elements before `i` and those from `i` on.
    ///
    /// The descent keeps every bypassed subtree on an explicit stack, tagged
    /// with the side it belongs to, and the stack is unwound with joins: the
    /// cost is bounded by the height of the tree, not by the call stack.
    pub(crate) fn split(self, i: usize) -> (r: Result<(Self, Self), RopeError>)
        requires
            self.wf(),
        ensures
            match r {
                Ok((a, b)) => {
                    &&& i <= self.flat().len()
                    &&& a.wf()
                    &&& b.wf()
                    &&& a.flat() == self.flat().subrange(0, i as int)
                    &&& b.flat() == self.flat().subrange(i as int, self.flat().len() as int)
                },
                Err(e) => {
                    &&& i > self.flat().len()
                    &&& e == RopeError::IndexOutOfBounds { len: self.flat().len() as usize, index: i }
                },
            },
    {
        let n = self.len();
        if i > n {
            return Err(RopeError::IndexOutOfBounds { len: n, index: i });
        }
        let ghost whole = self.flat();
        proof {
            self.lemma_wf_len();
        }
        let mut work: Vec<(Repr<T>, Direction)> = Vec::new();
        let mut right = self;
        let mut i = i;
        let ghost target = i as int;
        loop
            invariant_except_break
                whole == lefts(work@) + right.flat() + rights(work@),
                i <= right.flat().len(),
                lefts(work@).len() + i == target,
            invariant
                right.wf(),
                forall|k: int| 0 <= k < work@.len() ==> (#[trigger] work@[k]).0.wf(),
                whole.len() <= usize::MAX,
            ensures
                whole == lefts(work@) + right.flat() + rights(work@),
                lefts(work@).len() == target,
            decreases right.height(),
        {
            match right {
                Repr::Leaf(mut xs) => {
                    let ghost old_w = work@;
                    let ghost old_xs = xs@;
                    let tail = xs.split_off(i);
                    let e = (Repr::Leaf(xs), Direction::Left);
                    proof {
                        lemma_push(old_w, e);
                        assert(old_xs =~= xs@ + tail@);
                    }
                    work.push(e);
                    right = Repr::Leaf(tail);
                    break;
                },
                Repr::Node(l, _, r) => {
                    let ghost old_w = work@;
                    let ln = l.len();
                    if i < ln {
                        let e = (*r, Direction::Right);
                        proof {
                            lemma_push(old_w, e);
                        }
                        work.push(e);
                        right = *l;
                    } else {
                        i = i - ln;
                        let e = (*l, Direction::Left);
                        proof {
                            lemma_push(old_w, e);
                        }
                        work.push(e);
                        right = *r;
                    }
                },
            }
        }
        let mut left = Repr::new();
        loop
            invariant
                left.wf(),
                right.wf(),
                forall|k: int| 0 <= k < work@.len() ==> (#[trigger] work@[k]).0.wf(),
                whole.len() <= usize::MAX,
                whole == lefts(work@) + left.flat() + right.flat() + rights(work@),
                lefts(work@).len() + left.flat().len() == target,
            ensures
                whole == left.flat() + right.flat(),
                left.flat().len() == target,
            decreases work@.len(),
        {
            let ghost old_w = work@;
            match work.pop() {
                None => {
                    break;
                },
                Some((t, d)) => {
                    proof {
                        assert(work@ =~= old_w.drop_last());
                        assert(old_w[old_w.len() - 1].0.wf());
                    }
                    match d {
                        Direction::Left => {
                            left = Repr::node(t, left);
                        },
                        Direction::Right => {
                            right = Repr::node(right, t);
                        },
                    }
                },
            }
        }
        proof {
            assert(left.flat() =~= whole.subrange(0, target));
            assert(right.flat() =~= whole.subrange(target, whole.len() as int));
        }
        Ok((left, right))
    }

    /// The elements of the tree, left to right, borrowed.
    ///
    /// An in-order walk that defers right subtrees on an explicit stack
    /// instead of recursing.
    pub(crate) fn to_vec(&self) -> (r: Vec<&T>)
        requires
            self.wf(),
        ensures
            derefs(r@) == self.flat(),
    {
        let mut ret: Vec<&T> = Vec::with_capacity(self.len());
        let mut work: Vec<&Repr<T>> = Vec::new();
        let mut this: &Repr<T> = self;
        loop
            invariant_except_break
                derefs(ret@) + this.flat() + pending(work@) == self.flat(),
            ensures
                derefs(ret@) == self.flat(),
            decreases this.nodes() + pending_nodes(work@),
        {
            match this {
                Repr::Leaf(xs) => {
                    let ghost before = derefs(ret@);
                    let mut j: usize = 0;
                    while j < xs.len()
                        invariant
                            j <= xs@.len(),
                            derefs(ret@) == before + xs@.subrange(0, j as int),
                        decreases xs@.len() - j,
                    {
                        let ghost old_r = ret@;
                        ret.push(&xs[j]);
                        assert(derefs(ret@) =~= derefs(old_r).push(xs@[j as int]));
                        j = j + 1;
                        assert(derefs(ret@) =~= before + xs@.subrange(0, j as int));
                    }
                    assert(xs@.subrange(0, j as int) =~= xs@);
                    let ghost old_w = work@;
                    match work.pop() {
                        None => {
                            assert(derefs(ret@) =~= self.flat());
                            break;
                        },
                        Some(next) => {
                            assert(work@ =~= old_w.drop_last());
                            assert(derefs(ret@) + next.flat() + pending(work@) =~= self.flat());
                            this = next;
                        },
                    }
                },
                Repr::Node(l, _, r) => {
                    let ghost old_w = work@;
                    work.push(&**r);
                    assert(work@.drop_last() =~= old_w);
                    assert(derefs(ret@) + l.flat() + pending(work@) =~= self.flat());
                    this = &**l;
                },
            }
        }
        ret
    }
}

} // verus!

//! The model of a rope's tree: its shape, the text that it spells, and what
//! cutting and joining make of it.

use crate::text::{clamp, deleted, inserted, prefix, suffix};
use vstd::prelude::*;

verus! {

/// The shape of a tree of text: a fragment, or two subtrees with the cached
/// length of the left one.
pub ghost enum Shape {
    Leaf(Seq<char>),
    Internal { left: Box<Shape>, right: Box<Shape>, weight: nat },
}

impl Shape {
    /// The text of the tree: its fragments, left to right.
    pub open spec fn text(self) -> Seq<char>
        decreases self,
    {
        match self {
            Shape::Leaf(s) => s,
            Shape::Internal { left, right, .. } => left.text() + right.text(),
        }
    }

    /// The number of characters in the tree.
    pub open spec fn len(self) -> nat {
        self.text().len()
    }

    /// Every cached weight is the length of the left subtree's text, and the
    /// length of every subtree's text fits a `usize`.
    pub open spec fn wf(self) -> bool
        decreases self,
    {
        match self {
            Shape::Leaf(s) => s.len() <= usize::MAX,
            Shape::Internal { left, right, weight } => {
                &&& left.wf()
                &&& right.wf()
                &&& weight == left.len()
                &&& left.len() + right.len() <= usize::MAX
            },
        }
    }

    /// The weight of the root: the cached length of the left subtree, or the
    /// length of a leaf's fragment.
    pub open spec fn weight_of(self) -> nat {
        match self {
            Shape::Leaf(s) => s.len(),
            Shape::Internal { weight, .. } => weight,
        }
    }

    /// The tree whose children are `self` and `right`, as they are.
    pub open spec fn join(self, right: Shape) -> Shape {
        Shape::Internal { left: Box::new(self), right: Box::new(right), weight: self.len() }
    }

    /// The two trees that a cut at `index` makes. A leaf's fragment is
    /// divided at the index, clamped to its length. Below an internal node
    /// the child that holds the cut is cut, the other child is kept whole,
    /// and the weight of the new node is the length of its new left child.
    pub open spec fn cut(self, index: nat) -> (Shape, Shape)
        decreases self,
    {
        match self {
            Shape::Leaf(s) => (Shape::Leaf(prefix(s, index)), Shape::Leaf(suffix(s, index))),
            Shape::Internal { left, right, weight } => {
                if index <= weight {
                    let (ll, lr) = left.cut(index);
                    (ll, lr.join(*right))
                } else {
                    let (rl, rr) = right.cut((index - weight) as nat);
                    (left.join(rl), rr)
                }
            },
        }
    }

    /// The two trees that a split at `index` makes, the index clamped to the
    /// length of the text.
    pub open spec fn split(self, index: nat) -> (Shape, Shape) {
        self.cut(clamp(self.len(), index))
    }

    /// The tree with a new leaf of `t` between the two halves of a split at
    /// `index`.
    pub open spec fn insert(self, index: nat, t: Seq<char>) -> Shape {
        let (left, right) = self.split(index);
        left.join(Shape::Leaf(t)).join(right)
    }

    /// The tree of what lies before `start` and what lies `len` characters
    /// further on, `len` clamped to what follows `start`.
    pub open spec fn delete(self, start: nat, len: nat) -> Shape {
        let (left, rest) = self.split(start);
        let (_, right) = rest.split(clamp(rest.len(), len));
        left.join(right)
    }

    /// The text of a well-formed tree fits a `usize`.
    pub proof fn lemma_len_fits(self)
        requires
            self.wf(),
        ensures
            self.len() <= usize::MAX,
    {
    }

    /// A cut of a well-formed tree makes two well-formed trees: the first
    /// spells the text before the index, the second the text from it on.
    pub proof fn lemma_cut(self, index: nat)
        requires
            self.wf(),
        ensures
            self.cut(index).0.wf(),
            self.cut(index).1.wf(),
            self.cut(index).0.text() == prefix(self.text(), index),
            self.cut(index).1.text() == suffix(self.text(), index),
        decreases self,
    {
        match self {
            Shape::Leaf(s) => {},
            Shape::Internal { left, right, weight } => {
                let l = left.text();
                let r = right.text();
                if index <= weight {
                    left.lemma_cut(index);
                    assert(prefix(l + r, index) =~= prefix(l, index));
                    assert(suffix(l + r, index) =~= suffix(l, index) + r);
                } else {
                    let rest = (index - weight) as nat;
                    right.lemma_cut(rest);
                    assert(prefix(l + r, index) =~= l + prefix(r, rest));
                    assert(suffix(l + r, index) =~= suffix(r, rest));
                }
            },
        }
    }

    /// A split of a well-formed tree makes two well-formed trees: the first
    /// spells the text before the clamped index, the second the text from it
    /// on.
    pub proof fn lemma_split(self, index: nat)
        requires
            self.wf(),
        ensures
            self.split(index).0.wf(),
            self.split(index).1.wf(),
            self.split(index).0.text() == prefix(self.text(), index),
            self.split(index).1.text() == suffix(self.text(), index),
    {
        self.lemma_cut(clamp(self.len(), index));
        assert(prefix(self.text(), clamp(self.len(), index)) =~= prefix(self.text(), index));
        assert(suffix(self.text(), clamp(self.len(), index)) =~= suffix(self.text(), index));
    }

    /// Joining two well-formed trees whose texts fit a `usize` together
    /// makes a well-formed tree that spells the first text and then the
    /// second.
    pub proof fn lemma_join(self, right: Shape)
        requires
            self.wf(),
            right.wf(),
            self.len() + right.len() <= usize::MAX,
        ensures
            self.join(right).wf(),
            self.join(right).text() == self.text() + right.text(),
    {
    }

    /// An insertion that fits makes a well-formed tree that spells the text
    /// with `t` placed at the clamped index.
    pub proof fn lemma_insert(self, index: nat, t: Seq<char>)
        requires
            self.wf(),
            self.len() + t.len() <= usize::MAX,
        ensures
            self.insert(index, t).wf(),
            self.insert(index, t).text() == inserted(self.text(), index, t),
    {
        self.lemma_split(index);
        crate::text::lemma_split_concat(self.text(), index);
        let (left, right) = self.split(index);
        let middle = Shape::Leaf(t);
        assert(left.len() + right.len() == self.len());
        left.lemma_join(middle);
        left.join(middle).lemma_join(right);
    }

    /// A deletion makes a well-formed tree that spells the text without the
    /// deleted characters.
    pub proof fn lemma_delete(self, start: nat, len: nat)
        requires
            self.wf(),
        ensures
            self.delete(start, len).wf(),
            self.delete(start, len).text() == deleted(self.text(), start, len),
    {
        self.lemma_split(start);
        let rest = self.split(start).1;
        rest.lemma_split(clamp(rest.len(), len));
        assert(suffix(rest.text(), clamp(rest.len(), len)) =~= suffix(rest.text(), len));
        self.split(start).0.lemma_join(rest.split(clamp(rest.len(), len)).1);
    }

    /// A tree of one leaf spells the text of that leaf: a rope made from a
    /// string gives that string back.
    pub proof fn lemma_leaf_text(s: Seq<char>)
        ensures
            Shape::Leaf(s).text() == s,
            s.len() <= usize::MAX ==> Shape::Leaf(s).wf(),
    {
    }

    /// Splitting at any index and joining the two halves makes a well-formed
    /// tree that spells the same text.
    pub proof fn lemma_split_join(self, index: nat)
        requires
            self.wf(),
        ensures
            self.split(index).0.join(self.split(index).1).wf(),
            self.split(index).0.join(self.split(index).1).text() == self.text(),
    {
        self.lemma_split(index);
        crate::text::lemma_split_concat(self.text(), index);
        self.split(index).0.lemma_join(self.split(index).1);
    }

    /// Deleting what was just inserted, at the place within the text where
    /// it was inserted, makes a tree that spells the text as it was.
    pub proof fn lemma_insert_delete(self, index: nat, t: Seq<char>)
        requires
            self.wf(),
            index <= self.len(),
            self.len() + t.len() <= usize::MAX,
        ensures
            self.insert(index, t).delete(index, t.len()).wf(),
            self.insert(index, t).delete(index, t.len()).text() == self.text(),
    {
        self.lemma_insert(index, t);
        self.insert(index, t).lemma_delete(index, t.len());
        crate::text::lemma_insert_delete(self.text(), index, t);
    }
}

} // verus!

//! A persistent rope: an immutable binary tree over text whose subtrees are
//! shared between the values that edits produce.

use crate::shape::Shape;
use crate::text::{char_of, deleted, inserted, prefix, suffix};
use std::rc::Rc;
use vstd::prelude::*;
use vstd::string::*;
use vstd::utf8::encode_utf8;

verus! {

/// A node of the tree: a fragment of text, or two shared subtrees with the
/// length of the left one cached.
pub enum RopeNode {
    Leaf(String),
    Internal { left: Rc<RopeNode>, right: Rc<RopeNode>, weight: usize },
}

impl RopeNode {
    /// The shape of the subtree: its fragments and weights, without regard
    /// to who shares them.
    pub open spec fn shape(&self) -> Shape
        decreases self,
    {
        match self {
            RopeNode::Leaf(s) => Shape::Leaf(s@),
            RopeNode::Internal { left, right, weight } => Shape::Internal {
                left: Box::new(left.shape()),
                right: Box::new(right.shape()),
                weight: *weight as nat,
            },
        }
    }

    /// The text of the subtree: its fragments, left to right.
    pub open spec fn text(&self) -> Seq<char> {
        self.shape().text()
    }

    /// Every cached weight is the length of the left subtree's text, and the
    /// length of every subtree's text fits a `usize`.
    pub open spec fn wf(&self) -> bool {
        self.shape().wf()
    }
}

/// A text has at most as many characters as its encoding has bytes.
pub proof fn lemma_chars_le_bytes(chars: Seq<char>)
    ensures
        chars.len() <= encode_utf8(chars).len(),
    decreases chars.len(),
{
    if chars.len() > 0 {
        lemma_chars_le_bytes(chars.drop_first());
    }
}

/// A rope: a shared reference to the root of a tree of text.
pub struct Rope {
    pub root: Rc<RopeNode>,
}

impl View for Rope {
    type V = Seq<char>;

    open spec fn view(&self) -> Seq<char> {
        self.root.text()
    }
}

impl Clone for Rope {
    /// Another reference to the same tree.
    fn clone(&self) -> (r: Self)
        ensures
            r == *self,
    {
        Rope { root: self.root.clone() }
    }
}

impl Rope {
    /// The shape of the tree under the rope.
    pub open spec fn shape(&self) -> Shape {
        self.root.shape()
    }

    /// The tree under the rope is well formed.
    pub open spec fn wf(&self) -> bool {
        self.root.wf()
    }

    /// The empty rope: one empty leaf.
    pub fn new() -> (r: Rope)
        ensures
            r.wf(),
            r@ == Seq::<char>::empty(),
            r.shape() == Shape::Leaf(Seq::empty()),
    {
        Rope { root: Rc::new(RopeNode::Leaf(String::new())) }
    }

    /// A rope of one leaf that holds `s`.
    pub fn from_string(s: &str) -> (r: Rope)
        ensures
            r.wf(),
            r@ == s@,
            r.shape() == Shape::Leaf(s@),
    {
        let bytes = s.as_bytes();
        proof {
            vstd::slice::axiom_spec_len(bytes);
            lemma_chars_le_bytes(s@);
        }
        Rope { root: Rc::new(RopeNode::Leaf(s.to_string())) }
    }

    /// The number of characters in the rope.
    pub fn len(&self) -> (n: usize)
        requires
            self.wf(),
        ensures
            n == self@.len(),
    {
        self.total_len(&self.root)
    }

    /// The number of characters under `node`: the cached weight stands for
    /// the left subtree, so only the right spine is walked.
    pub fn total_len(&self, node: &Rc<RopeNode>) -> (n: usize)
        requires
            node.wf(),
        ensures
            n == node.text().len(),
        decreases node,
    {
        match &**node {
            RopeNode::Leaf(s) => s.as_str().unicode_len(),
            RopeNode::Internal { left, right, weight } => *weight + self.total_len(right),
        }
    }

    /// The weight of `node`: the cached length of the left subtree, or the
    /// length of a leaf's fragment.
    pub fn weight(&self, node: &Rc<RopeNode>) -> (w: usize)
        requires
            node.wf(),
        ensures
            w == node.shape().weight_of(),
    {
        match &**node {
            RopeNode::Leaf(s) => s.as_str().unicode_len(),
            RopeNode::Internal { weight, .. } => *weight,
        }
    }

    /// The rope of `left`'s text followed by `right`'s. The two trees become
    /// the children of a new root; nothing is copied or rebalanced.
    pub fn concat(left: Rope, right: Rope) -> (r: Rope)
        requires
            left.wf(),
            right.wf(),
            left@.len() + right@.len() <= usize::MAX,
        ensures
            r.wf(),
            r@ == left@ + right@,
            r.shape() == left.shape().join(right.shape()),
            *r.root == (RopeNode::Internal {
                left: left.root,
                right: right.root,
                weight: left@.len() as usize,
            }),
    {
        let weight: usize = left.len();
        Rope { root: Rc::new(RopeNode::Internal { left: left.root, right: right.root, weight }) }
    }

    /// The rope cut in two at `index`, which is clamped to the rope's length.
    pub fn split(&self, index: usize) -> (halves: (Rope, Rope))
        requires
            self.wf(),
        ensures
            halves.0.wf(),
            halves.1.wf(),
            halves.0@ == prefix(self@, index as nat),
            halves.1@ == suffix(self@, index as nat),
            halves.0.shape() == self.shape().split(index as nat).0,
            halves.1.shape() == self.shape().split(index as nat).1,
    {
        let n: usize = self.len();
        let index: usize = if index < n { index } else { n };
        proof {
            self.shape().lemma_split(index as nat);
        }
        let (left, right) = self.split_node(&self.root, index);
        (Rope { root: left }, Rope { root: right })
    }

    /// The subtree under `node` cut in two at `index`. A leaf's fragment is
    /// divided into two new leaves; below an internal node only the child
    /// that holds the cut is split, and the other child is shared.
    pub fn split_node(&self, node: &Rc<RopeNode>, index: usize) -> (halves: (
        Rc<RopeNode>,
        Rc<RopeNode>,
    ))
        requires
            node.wf(),
        ensures
            halves.0.wf(),
            halves.1.wf(),
            halves.0.text() == prefix(node.text(), index as nat),
            halves.1.text() == suffix(node.text(), index as nat),
            halves.0.shape() == node.shape().cut(index as nat).0,
            halves.1.shape() == node.shape().cut(index as nat).1,
        decreases node,
    {
        proof {
            node.shape().lemma_cut(index as nat);
        }
        match &**node {
            RopeNode::Leaf(s) => {
                let n: usize = s.as_str().unicode_len();
                let index: usize = if index < n { index } else { n };
                let left = s.as_str().substring_char(0, index);
                let right = s.as_str().substring_char(index, n);
                (
                    Rc::new(RopeNode::Leaf(left.to_string())),
                    Rc::new(RopeNode::Leaf(right.to_string())),
                )
            },
            RopeNode::Internal { left, right, weight } => {
                if index <= *weight {
                    let (ll, lr) = self.split_node(left, index);
                    let lr_len: usize = self.total_len(&lr);
                    (ll, Rc::new(RopeNode::Internal { left: lr, right: right.clone(), weight: lr_len }))
                } else {
                    let (rl, rr) = self.split_node(right, index - *weight);
                    let left_len: usize = self.total_len(left);
                    (Rc::new(RopeNode::Internal { left: left.clone(), right: rl, weight: left_len }), rr)
                }
            },
        }
    }

    /// The rope with `text` placed at `index`, which is clamped to the rope's
    /// length: a new leaf of `text` between the two halves of a split.
    pub fn insert(&self, index: usize, text: &str) -> (r: Rope)
        requires
            self.wf(),
            self@.len() + text@.len() <= usize::MAX,
        ensures
            r.wf(),
            r@ == inserted(self@, index as nat, text@),
            r.shape() == self.shape().insert(index as nat, text@),
    {
        proof {
            self.shape().lemma_insert(index as nat, text@);
            crate::text::lemma_split_concat(self@, index as nat);
        }
        let (left, right) = self.split(index);
        let middle = Rope::from_string(text);
        Rope::concat(Rope::concat(left, middle), right)
    }

    /// The rope without the `len` characters from `start` on; `start` is
    /// clamped to the rope's length and `len` to what follows `start`. What
    /// lies before and behind is kept and joined.
    pub fn delete(&self, start: usize, len: usize) -> (r: Rope)
        requires
            self.wf(),
        ensures
            r.wf(),
            r@ == deleted(self@, start as nat, len as nat),
            r.shape() == self.shape().delete(start as nat, len as nat),
    {
        proof {
            self.shape().lemma_delete(start as nat, len as nat);
            self.shape().lemma_len_fits();
        }
        let (left, rest) = self.split(start);
        let rest_len: usize = rest.len();
        let len: usize = if len < rest_len { len } else { rest_len };
        let (_, right) = rest.split(len);
        Rope::concat(left, right)
    }

    /// The whole text of the rope.
    pub fn to_string(&self) -> (out: String)
        ensures
            out@ == self@,
    {
        let mut result = String::new();
        self.collect(&self.root, &mut result);
        result
    }

    /// Appends the text under `node` to `result`.
    pub fn collect(&self, node: &Rc<RopeNode>, result: &mut String)
        ensures
            final(result)@ == old(result)@ + node.text(),
        decreases node,
    {
        match &**node {
            RopeNode::Leaf(s) => result.append(s.as_str()),
            RopeNode::Internal { left, right, .. } => {
                self.collect(left, result);
                self.collect(right, result);
            },
        }
    }

    /// The character at `index`, if the rope has one there.
    pub fn char_at(&self, index: usize) -> (c: Option<char>)
        requires
            self.wf(),
        ensures
            c == char_of(self@, index as nat),
    {
        self.get_char(&self.root, index)
    }

    /// The character at `index` under `node`: the cached weight decides at
    /// each internal node which child holds it.
    pub fn get_char(&self, node: &Rc<RopeNode>, index: usize) -> (c: Option<char>)
        requires
            node.wf(),
        ensures
            c == char_of(node.text(), index as nat),
        decreases node,
    {
        match &**node {
            RopeNode::Leaf(s) => {
                if index < s.as_str().unicode_len() {
                    Some(s.as_str().get_char(index))
                } else {
                    None
                }
            },
            RopeNode::Internal { left, right, weight } => {
                if index < *weight {
                    self.get_char(left, index)
                } else {
                    self.get_char(right, index - *weight)
                }
            },
        }
    }
}

} // verus!

//! The mathematical model of text edits: sequences of characters and the
//! clamped split, insert and delete operations on them.

use vstd::prelude::*;

verus! {

/// An index clamped into `[0, len]`.
pub open spec fn clamp(len: nat, index: nat) -> nat {
    if index <= len {
        index
    } else {
        len
    }
}

/// The characters before the clamped index.
pub open spec fn prefix(s: Seq<char>, index: nat) -> Seq<char> {
    s.subrange(0, clamp(s.len(), index) as int)
}

/// The characters from the clamped index on.
pub open spec fn suffix(s: Seq<char>, index: nat) -> Seq<char> {
    s.subrange(clamp(s.len(), index) as int, s.len() as int)
}

/// `s` with `t` placed at the clamped index.
pub open spec fn inserted(s: Seq<char>, index: nat, t: Seq<char>) -> Seq<char> {
    prefix(s, index) + t + suffix(s, index)
}

/// `s` without the `len` characters that start at the clamped index `start`;
/// fewer leave where fewer follow `start`.
pub open spec fn deleted(s: Seq<char>, start: nat, len: nat) -> Seq<char> {
    prefix(s, start) + suffix(suffix(s, start), len)
}

/// The character at `index`, where the text has one.
pub open spec fn char_of(s: Seq<char>, index: nat) -> Option<char> {
    if index < s.len() {
        Some(s[index as int])
    } else {
        None
    }
}

/// Splitting at any index and joining the halves gives the text back.
pub proof fn lemma_split_concat(s: Seq<char>, index: nat)
    ensures
        prefix(s, index) + suffix(s, index) == s,
{
    assert(prefix(s, index) + suffix(s, index) =~= s);
}

/// Deleting what was just inserted, at the place where it was inserted,
/// gives the text back.
pub proof fn lemma_insert_delete(s: Seq<char>, index: nat, t: Seq<char>)
    requires
        index <= s.len(),
    ensures
        deleted(inserted(s, index, t), index, t.len()) == s,
{
    assert(deleted(inserted(s, index, t), index, t.len()) =~= s);
}

} // verus!

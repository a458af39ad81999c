//! Which text may be typed into the document.

use vstd::prelude::*;
use vstd::std_specs::iter::IteratorSpec;
use vstd::string::*;

verus! {

/// What `char::is_whitespace` answers for a character.
pub uninterp spec fn unicode_whitespace(c: char) -> bool;

/// A printable ASCII character, from `!` to `~`.
pub open spec fn ascii_graphic(c: char) -> bool {
    0x21 <= c as u32 <= 0x7E
}

/// A character that may be typed into the text.
pub open spec fn acceptable_char(c: char) -> bool {
    ascii_graphic(c) || unicode_whitespace(c) || c == '\n'
}

/// A text that may be inserted: every character of it is acceptable.
pub open spec fn acceptable(t: Seq<char>) -> bool {
    forall|i: int| 0 <= i < t.len() ==> acceptable_char(#[trigger] t[i])
}

/// Calls `char::is_whitespace`, which says whether the character has the
/// Unicode property White_Space. The answer depends on the character alone;
/// which characters have the property is not stated here.
#[verifier::external_body]
fn is_whitespace(c: char) -> (b: bool)
    ensures
        b == unicode_whitespace(c),
{
    c.is_whitespace()
}

/// Whether `c` may be typed into the text.
pub fn accepts_char(c: char) -> (b: bool)
    ensures
        b == acceptable_char(c),
{
    let code: u32 = c as u32;
    (0x21 <= code && code <= 0x7E) || is_whitespace(c) || c == '\n'
}

/// Whether `text` may be inserted: whether every character of it may be
/// typed.
pub fn accepts(text: &str) -> (b: bool)
    ensures
        b == acceptable(text@),
{
    broadcast use vstd::string::group_string_axioms;

    let mut it = text.chars();
    let ghost mut seen: Seq<char> = Seq::empty();
    loop
        invariant
            it.obeys_prophetic_iter_laws(),
            it.decrease() is Some,
            seen + it.remaining() == text@,
            acceptable(seen),
        ensures
            acceptable(text@),
        decreases it.decrease()->0,
    {
        let ghost before = it;
        match it.next() {
            Some(c) => {
                assert(before.remaining() =~= seq![c] + it.remaining());
                assert(text@[seen.len() as int] == c);
                if !accepts_char(c) {
                    return false;
                }
                proof {
                    assert(seen.push(c) + it.remaining() =~= text@);
                    seen = seen.push(c);
                }
            },
            None => {
                assert(seen =~= text@);
                break;
            },
        }
    }
    true
}

} // verus!

//! Where the cursor stands on the screen: the line it is on and the column
//! within that line, counted in characters.

use crate::text::prefix;
use vstd::prelude::*;
use vstd::std_specs::iter::IteratorSpec;
use vstd::string::*;

verus! {

/// The number of line feeds in `s`.
pub open spec fn line_feeds(s: Seq<char>) -> nat
    decreases s.len(),
{
    if s.len() == 0 {
        0
    } else {
        line_feeds(s.drop_last()) + if s.last() == '\n' {
            1nat
        } else {
            0nat
        }
    }
}

/// The number of characters behind the last line feed of `s`; all of them
/// where `s` has no line feed.
pub open spec fn tail_len(s: Seq<char>) -> nat
    decreases s.len(),
{
    if s.len() == 0 || s.last() == '\n' {
        0
    } else {
        tail_len(s.drop_last()) + 1
    }
}

/// The length of a line without the carriage return that ends it, if one
/// does.
pub open spec fn without_return(line_len: nat, last: char) -> nat {
    if line_len > 0 && last == '\r' {
        (line_len - 1) as nat
    } else {
        line_len
    }
}

/// The length of the last line of `s`. A line feed at the very end of `s`
/// closes the last line and opens no new one, and a carriage return before
/// that line feed belongs to the line ending. The empty text has no line.
pub open spec fn last_line_len(s: Seq<char>) -> nat {
    if s.len() == 0 {
        0
    } else if s.last() == '\n' {
        let body = s.drop_last();
        if body.len() == 0 {
            0
        } else {
            without_return(tail_len(body), body.last())
        }
    } else {
        tail_len(s)
    }
}

/// The line and the column of the cursor in `content`: the number of line
/// feeds before the cursor, and the length of the last line of the text
/// before the cursor. A cursor behind the end counts as at the end.
pub fn cursor_place(content: &str, cursor: usize) -> (place: (usize, usize))
    ensures
        place.0 == line_feeds(prefix(content@, cursor as nat)),
        place.1 == last_line_len(prefix(content@, cursor as nat)),
{
    broadcast use vstd::string::group_string_axioms;

    let mut it = content.chars();
    let mut seen: usize = 0;
    let mut line: usize = 0;
    let mut tail: usize = 0;
    let mut closed: usize = 0;
    let mut last: Option<char> = None;
    while seen < cursor
        invariant
            it.obeys_prophetic_iter_laws(),
            it.decrease() is Some,
            seen <= cursor,
            seen + it.remaining().len() == content@.len(),
            content@.take(seen as int) + it.remaining() == content@,
            line == line_feeds(content@.take(seen as int)),
            tail == tail_len(content@.take(seen as int)),
            line <= seen,
            tail <= seen,
            closed <= seen,
            last == if seen == 0 {
                None
            } else {
                Some(content@[seen - 1])
            },
            last == Some('\n') ==> closed == last_line_len(content@.take(seen as int)),
        ensures
            seen <= cursor,
            seen <= content@.len(),
            seen < cursor ==> seen == content@.len(),
            line == line_feeds(content@.take(seen as int)),
            tail == tail_len(content@.take(seen as int)),
            last == if seen == 0 {
                None
            } else {
                Some(content@[seen - 1])
            },
            last == Some('\n') ==> closed == last_line_len(content@.take(seen as int)),
        decreases it.decrease()->0,
    {
        let ghost before = it;
        let ghost old_seen = content@.take(seen as int);
        match it.next() {
            Some(c) => {
                proof {
                    let now_seen = content@.take(seen + 1);
                    assert(before.remaining() =~= seq![c] + it.remaining());
                    assert(content@[seen as int] == (old_seen + before.remaining())[seen as int]);
                    assert(now_seen.drop_last() =~= old_seen);
                    assert(now_seen.last() == c);
                    assert(now_seen + it.remaining() =~= content@);
                    if seen > 0 {
                        assert(old_seen.last() == content@[seen - 1]);
                    }
                }
                if c == '\n' {
                    closed = match last {
                        Some('\r') => if tail > 0 { tail - 1 } else { tail },
                        _ => tail,
                    };
                    line += 1;
                    tail = 0;
                } else {
                    tail += 1;
                }
                last = Some(c);
                seen += 1;
            },
            None => {
                break;
            },
        }
    }
    proof {
        assert(prefix(content@, cursor as nat) =~= content@.take(seen as int));
    }
    let column: usize = match last {
        Some('\n') => closed,
        _ => tail,
    };
    (line, column)
}

} // verus!

//! The model of an editing session: the text, the cursor and the two stacks
//! of recorded edits, with the transitions that edits, undo and redo make and
//! the laws that hold of them.

use crate::accept::acceptable;
use crate::text::{clamp, deleted, inserted};
use vstd::prelude::*;

verus! {

/// A recorded edit, with the exact text that it put in or took out.
pub ghost enum Recorded {
    Insert { index: nat, text: Seq<char> },
    Delete { index: nat, text: Seq<char> },
}

impl Recorded {
    /// The edit that takes this one back.
    pub open spec fn inverse(self) -> Recorded {
        match self {
            Recorded::Insert { index, text } => Recorded::Delete { index, text },
            Recorded::Delete { index, text } => Recorded::Insert { index, text },
        }
    }

    /// The text after the edit is made on `s`.
    pub open spec fn apply(self, s: Seq<char>) -> Seq<char> {
        match self {
            Recorded::Insert { index, text } => inserted(s, index, text),
            Recorded::Delete { index, text } => deleted(s, index, text.len()),
        }
    }

    /// Where the cursor stands after the edit is made on `s`: behind what was
    /// inserted, or where the deleted text began. An index behind the end of
    /// the text counts as the end, so that the cursor stays within the text.
    pub open spec fn cursor_after(self, s: Seq<char>) -> nat {
        match self {
            Recorded::Insert { index, text } => clamp(s.len(), index) + text.len(),
            Recorded::Delete { index, text } => clamp(self.apply(s).len(), index),
        }
    }

    /// The text that the edit makes of `s` still fits a `usize`.
    pub open spec fn fits(self, s: Seq<char>) -> bool {
        match self {
            Recorded::Insert { index, text } => s.len() + text.len() <= usize::MAX,
            Recorded::Delete { index, text } => true,
        }
    }

    /// The edit matches `s`: an insertion lies within `s` and fits, a
    /// deletion names a place in `s` and exactly the text that stands there.
    pub open spec fn matches_text(self, s: Seq<char>) -> bool {
        match self {
            Recorded::Insert { index, text } => index <= s.len() && self.fits(s),
            Recorded::Delete { index, text } => {
                &&& index + text.len() <= s.len()
                &&& s.subrange(index as int, (index + text.len()) as int) == text
            },
        }
    }
}

/// Every edit of `redo`, last first, matches the text that the ones before
/// it have made of `s`.
pub open spec fn redoable(s: Seq<char>, redo: Seq<Recorded>) -> bool
    decreases redo.len(),
{
    redo.len() == 0 || {
        &&& redo.last().matches_text(s)
        &&& redoable(redo.last().apply(s), redo.drop_last())
    }
}

/// `s` is what the edits of `undo`, first to last, have made: each can be
/// taken back in turn, last first.
pub open spec fn undoable(s: Seq<char>, undo: Seq<Recorded>) -> bool
    decreases undo.len(),
{
    undo.len() == 0 || {
        &&& undo.last().inverse().matches_text(s)
        &&& undoable(undo.last().inverse().apply(s), undo.drop_last())
    }
}

/// An edit as the user asks for it.
pub ghost enum Edit {
    Insert(Seq<char>),
    DeleteBackward,
}

/// The state of an editing session.
pub ghost struct Session {
    pub text: Seq<char>,
    pub cursor: nat,
    pub undo: Seq<Recorded>,
    pub redo: Seq<Recorded>,
    pub filename: Option<Seq<char>>,
    pub dirty: bool,
    pub status: Option<Seq<char>>,
}

impl Session {
    /// The cursor stands within the text, and the text fits a `usize`.
    pub open spec fn wf(self) -> bool {
        self.cursor <= self.text.len() <= usize::MAX
    }

    /// The session is well formed and its two stacks match its text: the
    /// text is what the undo stack's edits made, and the redo stack's edits
    /// can be made on it again.
    pub open spec fn consistent(self) -> bool {
        &&& self.wf()
        &&& undoable(self.text, self.undo)
        &&& redoable(self.text, self.redo)
    }

    /// Undo has nothing to do, or what it makes of the text fits a `usize`.
    pub open spec fn undo_fits(self) -> bool {
        self.undo.len() > 0 ==> self.undo.last().inverse().fits(self.text)
    }

    /// Redo has nothing to do, or what it makes of the text fits a `usize`.
    pub open spec fn redo_fits(self) -> bool {
        self.redo.len() > 0 ==> self.redo.last().fits(self.text)
    }

    /// The session of a new editor: no text, no history, no file.
    pub open spec fn initial() -> Session {
        Session {
            text: Seq::empty(),
            cursor: 0,
            undo: Seq::empty(),
            redo: Seq::empty(),
            filename: None,
            dirty: false,
            status: None,
        }
    }

    /// The session after `t` is typed at the cursor. A text with a character
    /// that is not acceptable changes nothing.
    pub open spec fn insert(self, t: Seq<char>) -> Session {
        if acceptable(t) {
            Session {
                text: inserted(self.text, self.cursor, t),
                cursor: self.cursor + t.len(),
                undo: self.undo.push(Recorded::Insert { index: self.cursor, text: t }),
                redo: Seq::empty(),
                dirty: true,
                status: None,
                ..self
            }
        } else {
            self
        }
    }

    /// The session after the character before the cursor is deleted. At the
    /// start of the text nothing changes.
    pub open spec fn delete_backward(self) -> Session {
        if self.cursor > 0 {
            let index = (self.cursor - 1) as nat;
            Session {
                text: deleted(self.text, index, 1),
                cursor: index,
                undo: self.undo.push(
                    Recorded::Delete { index, text: seq![self.text[index as int]] },
                ),
                redo: Seq::empty(),
                dirty: true,
                status: None,
                ..self
            }
        } else {
            self
        }
    }

    /// The session after the last recorded edit is taken back and moved to
    /// the redo stack. With nothing recorded only the status changes.
    pub open spec fn undo(self) -> Session {
        if self.undo.len() > 0 {
            let a = self.undo.last();
            Session {
                text: a.inverse().apply(self.text),
                cursor: a.inverse().cursor_after(self.text),
                undo: self.undo.drop_last(),
                redo: self.redo.push(a),
                dirty: true,
                status: Some("Undo performed"@),
                ..self
            }
        } else {
            Session { status: Some("Nothing to undo"@), ..self }
        }
    }

    /// The session after the last edit taken back is made again and moved to
    /// the undo stack. With nothing to make again only the status changes.
    pub open spec fn redo(self) -> Session {
        if self.redo.len() > 0 {
            let a = self.redo.last();
            Session {
                text: a.apply(self.text),
                cursor: a.cursor_after(self.text),
                undo: self.undo.push(a),
                redo: self.redo.drop_last(),
                dirty: true,
                status: Some("Redo performed"@),
                ..self
            }
        } else {
            Session { status: Some("Nothing to redo"@), ..self }
        }
    }

    /// The session after the cursor moves one character to the left, if it
    /// can.
    pub open spec fn cursor_left(self) -> Session {
        if self.cursor > 0 {
            Session { cursor: (self.cursor - 1) as nat, status: None, ..self }
        } else {
            self
        }
    }

    /// The session after the cursor moves one character to the right, if it
    /// can.
    pub open spec fn cursor_right(self) -> Session {
        if self.cursor < self.text.len() {
            Session { cursor: self.cursor + 1, status: None, ..self }
        } else {
            self
        }
    }

    /// The session after a file's content is loaded under `name`: the content
    /// is the text, the cursor stands at its start, nothing is unsaved, and
    /// the two stacks stay as they are.
    pub open spec fn load(self, name: Seq<char>, content: Seq<char>) -> Session {
        Session {
            text: content,
            cursor: 0,
            filename: Some(name),
            dirty: false,
            status: Some("File loaded successfully!"@),
            ..self
        }
    }

    /// The session after its text was written to its file: nothing is
    /// unsaved.
    pub open spec fn saved(self) -> Session {
        Session { dirty: false, ..self }
    }

    /// Whether the edit changes the session: an insertion of acceptable
    /// text, or a deletion with a character before the cursor.
    pub open spec fn takes_effect(self, e: Edit) -> bool {
        match e {
            Edit::Insert(t) => acceptable(t),
            Edit::DeleteBackward => self.cursor > 0,
        }
    }

    /// The session after one edit.
    pub open spec fn step(self, e: Edit) -> Session {
        match e {
            Edit::Insert(t) => self.insert(t),
            Edit::DeleteBackward => self.delete_backward(),
        }
    }

    /// The session after the edits of `edits`, first to last.
    pub open spec fn run(self, edits: Seq<Edit>) -> Session
        decreases edits.len(),
    {
        if edits.len() == 0 {
            self
        } else {
            self.run(edits.drop_last()).step(edits.last())
        }
    }

    /// The session after `n` times undo.
    pub open spec fn undo_times(self, n: nat) -> Session
        decreases n,
    {
        if n == 0 {
            self
        } else {
            self.undo().undo_times((n - 1) as nat)
        }
    }

    /// Two sessions with the same text, cursor and undo stack.
    pub open spec fn same_past(self, other: Session) -> bool {
        &&& self.text == other.text
        &&& self.cursor == other.cursor
        &&& self.undo == other.undo
    }
}

/// Taking back an edit that was made on `s` gives `s` again, and leaves a
/// text that the edit matches as it matched `s`.
pub proof fn lemma_apply_inverse(a: Recorded, s: Seq<char>)
    requires
        a.matches_text(s),
        s.len() <= usize::MAX,
    ensures
        a.inverse().matches_text(a.apply(s)),
        a.inverse().apply(a.apply(s)) == s,
        a.inverse().inverse() == a,
        a.apply(s).len() <= usize::MAX,
{
    match a {
        Recorded::Insert { index, text } => {
            assert(a.apply(s).subrange(index as int, (index + text.len()) as int) =~= text);
            assert(a.inverse().apply(a.apply(s)) =~= s);
        },
        Recorded::Delete { index, text } => {
            assert(a.inverse().apply(a.apply(s)) =~= s);
        },
    }
}

/// On a text that it matches, an edit leaves the cursor behind what it
/// inserted, or at the place where it deleted: no index is clamped.
pub proof fn lemma_cursor_after_matching(a: Recorded, s: Seq<char>)
    requires
        a.matches_text(s),
    ensures
        a.cursor_after(s) == match a {
            Recorded::Insert { index, text } => index + text.len(),
            Recorded::Delete { index, text } => index,
        },
        a.apply(s).len() == match a {
            Recorded::Insert { index, text } => s.len() + text.len(),
            Recorded::Delete { index, text } => (s.len() - text.len()) as nat,
        },
{
}

/// The recorded insertion of `t` at a place within `s` can be taken back
/// from the text that it made.
pub proof fn lemma_insert_recorded(s: Seq<char>, index: nat, t: Seq<char>)
    requires
        index <= s.len(),
    ensures
        (Recorded::Delete { index, text: t }).matches_text(inserted(s, index, t)),
        deleted(inserted(s, index, t), index, t.len()) == s,
{
    assert(inserted(s, index, t).subrange(index as int, (index + t.len()) as int) =~= t);
    assert(deleted(inserted(s, index, t), index, t.len()) =~= s);
}

/// Putting the character at `index` back where it was deleted gives the
/// text again.
pub proof fn lemma_delete_recorded(s: Seq<char>, index: nat)
    requires
        index < s.len(),
    ensures
        deleted(s, index, 1).len() + 1 == s.len(),
        inserted(deleted(s, index, 1), index, seq![s[index as int]]) == s,
{
    assert(inserted(deleted(s, index, 1), index, seq![s[index as int]]) =~= s);
}

impl Session {
    /// The stacks of a consistent session hold nothing that undo or redo
    /// could not make for want of room.
    pub proof fn lemma_consistent_fits(self)
        requires
            self.consistent(),
        ensures
            self.undo_fits(),
            self.redo_fits(),
    {
    }

    /// The session of a new editor is consistent.
    pub proof fn lemma_initial_consistent()
        ensures
            Session::initial().consistent(),
    {
    }

    /// Loading a text that fits into a session with nothing recorded gives a
    /// consistent session.
    pub proof fn lemma_load_consistent(self, name: Seq<char>, content: Seq<char>)
        requires
            self.undo.len() == 0,
            self.redo.len() == 0,
            content.len() <= usize::MAX,
        ensures
            self.load(name, content).consistent(),
    {
    }

    /// An insertion that fits keeps a consistent session consistent.
    pub proof fn lemma_insert_consistent(self, t: Seq<char>)
        requires
            self.consistent(),
            self.text.len() + t.len() <= usize::MAX,
        ensures
            self.insert(t).consistent(),
    {
        if acceptable(t) {
            let next = self.insert(t);
            lemma_insert_recorded(self.text, self.cursor, t);
            assert(next.undo.drop_last() =~= self.undo);
        }
    }

    /// A deletion keeps a consistent session consistent.
    pub proof fn lemma_delete_backward_consistent(self)
        requires
            self.consistent(),
        ensures
            self.delete_backward().consistent(),
    {
        if self.cursor > 0 {
            let next = self.delete_backward();
            lemma_delete_recorded(self.text, (self.cursor - 1) as nat);
            assert(next.undo.drop_last() =~= self.undo);
        }
    }

    /// Undo keeps a consistent session consistent.
    pub proof fn lemma_undo_consistent(self)
        requires
            self.consistent(),
        ensures
            self.undo().consistent(),
    {
        if self.undo.len() > 0 {
            let a = self.undo.last();
            let next = self.undo();
            lemma_apply_inverse(a.inverse(), self.text);
            assert(next.redo.drop_last() =~= self.redo);
        }
    }

    /// Redo keeps a consistent session consistent.
    pub proof fn lemma_redo_consistent(self)
        requires
            self.consistent(),
        ensures
            self.redo().consistent(),
    {
        if self.redo.len() > 0 {
            let a = self.redo.last();
            let next = self.redo();
            lemma_apply_inverse(a, self.text);
            assert(next.undo.drop_last() =~= self.undo);
        }
    }

    /// Moving the cursor keeps a consistent session consistent.
    pub proof fn lemma_cursor_consistent(self)
        requires
            self.consistent(),
        ensures
            self.cursor_left().consistent(),
            self.cursor_right().consistent(),
    {
    }

    /// Undo after an edit that took effect restores the text, the cursor and
    /// the undo stack as they were before the edit.
    pub proof fn lemma_undo_of_edit(self, e: Edit)
        requires
            self.cursor <= self.text.len(),
            self.takes_effect(e),
        ensures
            self.step(e).undo().same_past(self),
            self.step(e).undo.len() == self.undo.len() + 1,
    {
        let next = self.step(e);
        assert(next.undo.drop_last() =~= self.undo);
        match e {
            Edit::Insert(t) => {
                lemma_insert_recorded(self.text, self.cursor, t);
            },
            Edit::DeleteBackward => {
                lemma_delete_recorded(self.text, (self.cursor - 1) as nat);
            },
        }
    }

    /// An edit leaves the cursor within the text, and an edit that does not
    /// take effect leaves the session as it was.
    pub proof fn lemma_step_cursor(self, e: Edit)
        requires
            self.cursor <= self.text.len(),
        ensures
            self.step(e).cursor <= self.step(e).text.len(),
            !self.takes_effect(e) ==> self.step(e) == self,
    {
    }

    /// What repeated undo makes of the text, the cursor and the undo stack
    /// depends on these three alone.
    pub proof fn lemma_undo_times_same_past(self, other: Session, n: nat)
        requires
            self.same_past(other),
        ensures
            self.undo_times(n).same_past(other.undo_times(n)),
        decreases n,
    {
        if n > 0 {
            self.undo().lemma_undo_times_same_past(other.undo(), (n - 1) as nat);
        }
    }

    /// Undo on an empty undo stack, however often, leaves the text, the
    /// cursor and the undo stack alone.
    pub proof fn lemma_undo_times_empty(self, n: nat)
        requires
            self.undo.len() == 0,
        ensures
            self.undo_times(n).same_past(self),
        decreases n,
    {
        if n > 0 {
            self.undo().lemma_undo_times_empty((n - 1) as nat);
        }
    }

    /// Undoing `m + n` times is undoing `m` times and then `n` times.
    pub proof fn lemma_undo_times_split(self, m: nat, n: nat)
        ensures
            self.undo_times(m + n) == self.undo_times(m).undo_times(n),
        decreases m,
    {
        if m > 0 {
            self.undo().lemma_undo_times_split((m - 1) as nat, n);
        }
    }

    /// After any sequence of insertions and backward deletions, one undo for
    /// each edit that was recorded restores the text, the cursor and the undo
    /// stack as they were before the first of them.
    pub proof fn lemma_undo_all(self, edits: Seq<Edit>)
        requires
            self.cursor <= self.text.len(),
        ensures
            self.run(edits).cursor <= self.run(edits).text.len(),
            self.undo.len() <= self.run(edits).undo.len() <= self.undo.len() + edits.len(),
            self.run(edits).undo_times(
                (self.run(edits).undo.len() - self.undo.len()) as nat,
            ).same_past(self),
        decreases edits.len(),
    {
        if edits.len() > 0 {
            let mid = self.run(edits.drop_last());
            let e = edits.last();
            let end = mid.step(e);
            self.lemma_undo_all(edits.drop_last());
            mid.lemma_step_cursor(e);
            if mid.takes_effect(e) {
                mid.lemma_undo_of_edit(e);
                let k = (mid.undo.len() - self.undo.len()) as nat;
                end.undo().lemma_undo_times_same_past(mid, k);
            }
        }
    }

    /// In a session that starts with nothing recorded, one undo for each edit
    /// of any sequence of insertions and backward deletions restores the text
    /// and the cursor as they were before the first of them.
    pub proof fn lemma_undo_each(self, edits: Seq<Edit>)
        requires
            self.cursor <= self.text.len(),
            self.undo.len() == 0,
        ensures
            self.run(edits).undo_times(edits.len()).text == self.text,
            self.run(edits).undo_times(edits.len()).cursor == self.cursor,
    {
        let end = self.run(edits);
        self.lemma_undo_all(edits);
        let k = end.undo.len();
        let rest = (edits.len() - k) as nat;
        end.lemma_undo_times_split(k, rest);
        end.undo_times(k).lemma_undo_times_empty(rest);
    }

    /// In a consistent session undo puts the cursor where the edit that it
    /// takes back began, or behind the text that it puts back.
    pub proof fn lemma_undo_cursor(self)
        requires
            self.consistent(),
            self.undo.len() > 0,
        ensures
            self.undo().cursor == match self.undo.last() {
                Recorded::Insert { index, text } => index,
                Recorded::Delete { index, text } => index + text.len(),
            },
    {
        lemma_cursor_after_matching(self.undo.last().inverse(), self.text);
    }

    /// In a consistent session redo puts the cursor behind the text that it
    /// inserts again, or where it deletes again.
    pub proof fn lemma_redo_cursor(self)
        requires
            self.consistent(),
            self.redo.len() > 0,
        ensures
            self.redo().cursor == match self.redo.last() {
                Recorded::Insert { index, text } => index + text.len(),
                Recorded::Delete { index, text } => index,
            },
    {
        lemma_cursor_after_matching(self.redo.last(), self.text);
    }

    /// Redo after undo, with something to undo in a consistent session,
    /// restores the text and both stacks, and puts the cursor where the edit
    /// that was made again leaves it.
    pub proof fn lemma_redo_after_undo(self)
        requires
            self.consistent(),
            self.undo.len() > 0,
        ensures
            self.undo().redo().text == self.text,
            self.undo().redo().undo == self.undo,
            self.undo().redo().redo == self.redo,
            self.undo().redo().cursor == self.undo.last().cursor_after(self.undo().text),
    {
        let a = self.undo.last();
        lemma_apply_inverse(a.inverse(), self.text);
        assert(self.undo().redo().undo =~= self.undo);
        assert(self.undo().redo().redo =~= self.redo);
    }

    /// Undo after redo, with something to redo in a consistent session,
    /// restores the text and both stacks, and puts the cursor where taking
    /// the edit back leaves it.
    pub proof fn lemma_undo_after_redo(self)
        requires
            self.consistent(),
            self.redo.len() > 0,
        ensures
            self.redo().undo().text == self.text,
            self.redo().undo().undo == self.undo,
            self.redo().undo().redo == self.redo,
            self.redo().undo().cursor == self.redo.last().inverse().cursor_after(
                self.redo().text,
            ),
    {
        let a = self.redo.last();
        lemma_apply_inverse(a, self.text);
        assert(self.redo().undo().undo =~= self.undo);
        assert(self.redo().undo().redo =~= self.redo);
    }

    /// Undo and then redo, directly after an edit that took effect, restores
    /// the session as the edit left it; only the status tells of the redo.
    pub proof fn lemma_redo_after_undo_of_edit(self, e: Edit)
        requires
            self.cursor <= self.text.len(),
            self.takes_effect(e),
        ensures
            self.step(e).undo().redo() == (Session {
                status: Some("Redo performed"@),
                ..self.step(e)
            }),
    {
        let next = self.step(e);
        let back = next.undo();
        let again = back.redo();
        self.lemma_undo_of_edit(e);
        assert(back.redo =~= seq![next.undo.last()]);
        assert(again.undo =~= next.undo);
        assert(again.redo =~= next.redo);
        match e {
            Edit::Insert(t) => {
                assert(again.text =~= next.text);
            },
            Edit::DeleteBackward => {
                let index = (self.cursor - 1) as nat;
                lemma_delete_recorded(self.text, index);
                assert(again.text =~= next.text);
            },
        }
    }

    /// An edit that takes effect empties the redo stack, so that redo then
    /// changes nothing but the status.
    pub proof fn lemma_edit_clears_redo(self, e: Edit)
        requires
            self.takes_effect(e),
        ensures
            self.step(e).redo.len() == 0,
            self.step(e).redo() == (Session {
                status: Some("Nothing to redo"@),
                ..self.step(e)
            }),
    {
    }
}

} // verus!

//! The editor: a rope, a cursor and the history of edits, with undo and
//! redo that take each recorded edit back or make it again exactly.

use crate::accept::accepts;
use crate::rope::Rope;
use crate::session::{Recorded, Session};
use vstd::prelude::*;
use vstd::string::*;

verus! {

/// A recorded edit: where it happened and the exact text that it put in or
/// took out.
pub enum Action {
    Insert { index: usize, text: String },
    Delete { index: usize, text: String },
}

impl View for Action {
    type V = Recorded;

    open spec fn view(&self) -> Recorded {
        match self {
            Action::Insert { index, text } => Recorded::Insert { index: *index as nat, text: text@ },
            Action::Delete { index, text } => Recorded::Delete { index: *index as nat, text: text@ },
        }
    }
}

/// The recorded edits of a stack, oldest first.
pub open spec fn stack_view(stack: Seq<Action>) -> Seq<Recorded> {
    Seq::new(stack.len(), |i: int| stack[i]@)
}

/// The characters of a text that may be absent.
pub open spec fn text_view(text: Option<String>) -> Option<Seq<char>> {
    match text {
        Some(s) => Some(s@),
        None => None,
    }
}

/// Why the text cannot be saved.
pub enum SaveError {
    /// The editor knows no file to save to.
    NoFilename,
}

impl SaveError {
    /// The reason in words.
    pub fn message(&self) -> (m: String)
        ensures
            m@ == "No filename specified"@,
    {
        "No filename specified".to_string()
    }
}

/// The state of one editing session.
pub struct Editor {
    pub rope: Rope,
    pub cursor: usize,
    pub undo_stack: Vec<Action>,
    pub redo_stack: Vec<Action>,
    pub filename: Option<String>,
    pub dirty: bool,
    pub status_message: Option<String>,
}

impl View for Editor {
    type V = Session;

    open spec fn view(&self) -> Session {
        Session {
            text: self.rope@,
            cursor: self.cursor as nat,
            undo: stack_view(self.undo_stack@),
            redo: stack_view(self.redo_stack@),
            filename: text_view(self.filename),
            dirty: self.dirty,
            status: text_view(self.status_message),
        }
    }
}

impl Editor {
    /// The rope is well formed and the cursor stands within the text.
    pub open spec fn wf(&self) -> bool {
        &&& self.rope.wf()
        &&& self.cursor <= self.rope@.len()
    }

    /// A well-formed editor has a well-formed session.
    pub proof fn lemma_view_wf(&self)
        requires
            self.wf(),
        ensures
            self@.wf(),
    {
        self.rope.shape().lemma_len_fits();
    }

    /// An editor with no text, no history and no file.
    pub fn new() -> (e: Editor)
        ensures
            e.wf(),
            e@ == Session::initial(),
            e@.consistent(),
    {
        let e = Editor {
            rope: Rope::new(),
            cursor: 0,
            undo_stack: Vec::new(),
            redo_stack: Vec::new(),
            filename: None,
            dirty: false,
            status_message: None,
        };
        assert(e@.undo =~= Seq::empty());
        assert(e@.redo =~= Seq::empty());
        e
    }

    /// Takes `content` as the text of the file `path`: the cursor goes to the
    /// start and nothing is unsaved. The history stays as it is.
    pub fn load_file(&mut self, path: &str, content: &str)
        ensures
            final(self).wf(),
            final(self)@ == old(self)@.load(path@, content@),
    {
        self.rope = Rope::from_string(content);
        self.cursor = 0;
        self.filename = Some(path.to_string());
        self.dirty = false;
        self.status_message = Some("File loaded successfully!".to_string());
    }

    /// What is to be written where: the name of the editor's file and the
    /// whole text. Without a file name there is nothing to write to.
    pub fn save_file(&self) -> (r: Result<(String, String), SaveError>)
        ensures
            match r {
                Ok((name, content)) => self@.filename == Some(name@) && content@ == self@.text,
                Err(SaveError::NoFilename) => self@.filename is None,
            },
    {
        match &self.filename {
            Some(name) => Ok((name.clone(), self.rope.to_string())),
            None => Err(SaveError::NoFilename),
        }
    }

    /// Notes that the text was written to the editor's file: nothing is
    /// unsaved any more.
    pub fn file_saved(&mut self)
        ensures
            final(self).wf() == old(self).wf(),
            final(self)@ == old(self)@.saved(),
    {
        self.dirty = false;
    }

    /// Whether the text still fits a `usize` with `text` inserted.
    pub fn insert_fits(&self, text: &str) -> (b: bool)
        requires
            self.wf(),
        ensures
            b == (self@.text.len() + text@.len() <= usize::MAX),
    {
        let len: usize = self.rope.len();
        let extra: usize = text.unicode_len();
        extra <= usize::MAX - len
    }

    /// Whether undo has room for what it puts back.
    pub fn undo_fits(&self) -> (b: bool)
        requires
            self.wf(),
        ensures
            b == self@.undo_fits(),
    {
        let n: usize = self.undo_stack.len();
        if n == 0 {
            true
        } else {
            match &self.undo_stack[n - 1] {
                Action::Insert { .. } => true,
                Action::Delete { text, .. } => self.insert_fits(text.as_str()),
            }
        }
    }

    /// Whether redo has room for what it puts in again.
    pub fn redo_fits(&self) -> (b: bool)
        requires
            self.wf(),
        ensures
            b == self@.redo_fits(),
    {
        let n: usize = self.redo_stack.len();
        if n == 0 {
            true
        } else {
            match &self.redo_stack[n - 1] {
                Action::Insert { text, .. } => self.insert_fits(text.as_str()),
                Action::Delete { .. } => true,
            }
        }
    }

    /// Types `text` at the cursor, records the insertion and forgets what
    /// could be made again. A text with a character that is not acceptable is
    /// ignored.
    pub fn insert(&mut self, text: &str)
        requires
            old(self).wf(),
            old(self).rope@.len() + text@.len() <= usize::MAX,
        ensures
            final(self).wf(),
            final(self)@ == old(self)@.insert(text@),
            old(self)@.consistent() ==> final(self)@.consistent(),
    {
        proof {
            old(self).lemma_view_wf();
            if old(self)@.consistent() {
                old(self)@.lemma_insert_consistent(text@);
            }
        }
        if accepts(text) {
            self.rope = self.rope.insert(self.cursor, text);
            self.undo_stack.push(Action::Insert { index: self.cursor, text: text.to_string() });
            self.redo_stack.clear();
            self.cursor += text.unicode_len();
            self.dirty = true;
            self.status_message = None;
            assert(self@.undo =~= old(self)@.insert(text@).undo);
            assert(self@.redo =~= old(self)@.insert(text@).redo);
        }
    }

    /// Deletes the character before the cursor, records the deletion and
    /// forgets what could be made again. At the start of the text nothing
    /// happens.
    pub fn delete(&mut self)
        requires
            old(self).wf(),
        ensures
            final(self).wf(),
            final(self)@ == old(self)@.delete_backward(),
            old(self)@.consistent() ==> final(self)@.consistent(),
    {
        proof {
            if old(self)@.consistent() {
                old(self)@.lemma_delete_backward_consistent();
            }
        }
        if self.cursor > 0 {
            let index: usize = self.cursor - 1;
            let deleted_char = match self.rope.char_at(index) {
                Some(c) => char_to_string(c),
                None => String::new(),
            };
            self.rope = self.rope.delete(index, 1);
            self.cursor = index;
            self.undo_stack.push(Action::Delete { index, text: deleted_char });
            self.redo_stack.clear();
            self.dirty = true;
            self.status_message = None;
            assert(self@.undo =~= old(self)@.delete_backward().undo);
            assert(self@.redo =~= old(self)@.delete_backward().redo);
        }
    }

    /// Takes the last recorded edit back and keeps it for redo.
    pub fn undo(&mut self)
        requires
            old(self).wf(),
            old(self)@.undo_fits(),
        ensures
            final(self).wf(),
            final(self)@ == old(self)@.undo(),
            old(self)@.consistent() ==> final(self)@.consistent(),
    {
        proof {
            if old(self)@.consistent() {
                old(self)@.lemma_undo_consistent();
            }
        }
        if let Some(action) = self.undo_stack.pop() {
            assert(action@ == old(self)@.undo.last());
            match action {
                Action::Insert { index, text } => {
                    self.rope = self.rope.delete(index, text.as_str().unicode_len());
                    let len: usize = self.rope.len();
                    self.cursor = if index < len { index } else { len };
                    self.redo_stack.push(Action::Insert { index, text });
                },
                Action::Delete { index, text } => {
                    let len: usize = self.rope.len();
                    let at: usize = if index < len { index } else { len };
                    self.rope = self.rope.insert(index, text.as_str());
                    self.cursor = at + text.as_str().unicode_len();
                    self.redo_stack.push(Action::Delete { index, text });
                },
            }
            self.dirty = true;
            self.status_message = Some("Undo performed".to_string());
            assert(self@.undo =~= old(self)@.undo().undo);
            assert(self@.redo =~= old(self)@.undo().redo);
        } else {
            self.status_message = Some("Nothing to undo".to_string());
        }
    }

    /// Makes the last edit that was taken back again and records it anew.
    pub fn redo(&mut self)
        requires
            old(self).wf(),
            old(self)@.redo_fits(),
        ensures
            final(self).wf(),
            final(self)@ == old(self)@.redo(),
            old(self)@.consistent() ==> final(self)@.consistent(),
    {
        proof {
            if old(self)@.consistent() {
                old(self)@.lemma_redo_consistent();
            }
        }
        if let Some(action) = self.redo_stack.pop() {
            assert(action@ == old(self)@.redo.last());
            match action {
                Action::Insert { index, text } => {
                    let len: usize = self.rope.len();
                    let at: usize = if index < len { index } else { len };
                    self.rope = self.rope.insert(index, text.as_str());
                    self.cursor = at + text.as_str().unicode_len();
                    self.undo_stack.push(Action::Insert { index, text });
                },
                Action::Delete { index, text } => {
                    self.rope = self.rope.delete(index, text.as_str().unicode_len());
                    let len: usize = self.rope.len();
                    self.cursor = if index < len { index } else { len };
                    self.undo_stack.push(Action::Delete { index, text });
                },
            }
            self.dirty = true;
            self.status_message = Some("Redo performed".to_string());
            assert(self@.undo =~= old(self)@.redo().undo);
            assert(self@.redo =~= old(self)@.redo().redo);
        } else {
            self.status_message = Some("Nothing to redo".to_string());
        }
    }

    /// Moves the cursor one character to the left, if it is not at the start.
    pub fn move_cursor_left(&mut self)
        requires
            old(self).wf(),
        ensures
            final(self).wf(),
            final(self)@ == old(self)@.cursor_left(),
            old(self)@.consistent() ==> final(self)@.consistent(),
    {
        if self.cursor > 0 {
            self.cursor -= 1;
            self.status_message = None;
        }
    }

    /// Moves the cursor one character to the right, if it is not at the end.
    pub fn move_cursor_right(&mut self)
        requires
            old(self).wf(),
        ensures
            final(self).wf(),
            final(self)@ == old(self)@.cursor_right(),
            old(self)@.consistent() ==> final(self)@.consistent(),
    {
        if self.cursor < self.rope.len() {
            self.cursor += 1;
            self.status_message = None;
        }
    }
}

/// Calls `String::from` on a character, which gives the string of that one
/// character.
#[verifier::external_body]
fn char_to_string(c: char) -> (s: String)
    ensures
        s@ == seq![c],
{
    String::from(c)
}

} // verus!

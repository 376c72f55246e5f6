use vstd::prelude::*;
use vstd::string::StrSliceExecFns;
use vstd::string::StringExecFns;
use crate::ui::node::{NodeBase, is_fresh};

verus! {

/// A single-line text field: placeholder, text, change and enter callbacks, focus,
/// and the cursor, counted in characters from the start of the text.
pub struct InputBoxNode<Cb> {
    pub base: NodeBase,
    pub placeholder: String,
    pub text: String,
    pub on_change: Option<Cb>,
    pub on_enter: Option<Cb>,
    pub is_focused: bool,
    pub cursor_position: usize,
    pub cursor_visible: bool,
}

/// The smaller of two integers.
pub open spec fn min_int(a: int, b: int) -> int {
    if a <= b { a } else { b }
}

/// `text` with `input` inserted at character position `at` (at the end when `at`
/// lies past it).
pub open spec fn inserted(text: Seq<char>, at: int, input: Seq<char>) -> Seq<char> {
    let p = min_int(at, text.len() as int);
    text.take(p) + input + text.skip(p)
}

/// `text` after deleting the character before character position `cursor`, a
/// cursor past the end standing at the end (so the last character goes).
pub open spec fn backspaced(text: Seq<char>, cursor: int) -> Seq<char> {
    let c = min_int(cursor, text.len() as int);
    if c <= 0 {
        text
    } else {
        text.take(c - 1) + text.skip(c)
    }
}

/// Where the cursor stands after a backspace on a text of `len` characters: one
/// place back from where it stood, a cursor past the end counting from the end;
/// at the start it stays.
pub open spec fn backspace_cursor(len: int, cursor: int) -> int {
    let c = min_int(cursor, len);
    if c <= 0 { 0 } else { c - 1 }
}

impl<Cb> InputBoxNode<Cb> {
    /// A fresh field: empty placeholder and text, no callbacks, unfocused, cursor at
    /// the start and visible.
    pub fn new(key: String) -> (n: Self)
        ensures
            n.base.key@ == key@,
            is_fresh(n.base),
            n.placeholder@ == Seq::<char>::empty(),
            n.text@ == Seq::<char>::empty(),
            n.on_change is None,
            n.on_enter is None,
            !n.is_focused,
            n.cursor_position == 0,
            n.cursor_visible,
    {
        InputBoxNode {
            base: NodeBase::new(key),
            placeholder: String::new(),
            text: String::new(),
            on_change: None,
            on_enter: None,
            is_focused: false,
            cursor_position: 0,
            cursor_visible: true,
        }
    }

    /// Moves the cursor back onto the text when it lies past its end.
    pub fn clamp_cursor(&mut self)
        ensures
            final(self).cursor_position == min_int(
                old(self).cursor_position as int,
                old(self).text@.len() as int,
            ),
            *final(self) == (InputBoxNode { cursor_position: final(self).cursor_position, ..*old(self) }),
    {
        let char_count = self.text.as_str().unicode_len();
        if self.cursor_position > char_count {
            self.cursor_position = char_count;
        }
    }

    /// Deletes the character before the cursor and moves the cursor back by one; a
    /// cursor past the end of the text counts from the end (the last character
    /// goes). Does nothing when the cursor is at the start.
    pub fn backspace(&mut self)
        ensures
            final(self).text@ == backspaced(old(self).text@, old(self).cursor_position as int),
            final(self).cursor_position == backspace_cursor(old(self).text@.len() as int, old(self).cursor_position as int),
            *final(self) == (InputBoxNode {
                text: final(self).text,
                cursor_position: final(self).cursor_position,
                ..*old(self)
            }),
    {
        let len = self.text.as_str().unicode_len();
        let c = if self.cursor_position < len { self.cursor_position } else { len };
        if c == 0 {
            self.cursor_position = 0;
            return;
        }
        let mut edited = String::from_str(self.text.as_str().substring_char(0, c - 1));
        edited.append(self.text.as_str().substring_char(c, len));
        self.text = edited;
        self.cursor_position = c - 1;
        proof {
            assert(old(self).text@.take(c - 1) =~= old(self).text@.subrange(0, c - 1));
            assert(old(self).text@.skip(c as int) =~= old(self).text@.subrange(c as int, len as int));
        }
    }

    /// Inserts `input` at the cursor (at the end of the text when the cursor lies
    /// past it) and moves the cursor forward by the number of inserted characters;
    /// does nothing when `input` is empty.
    pub fn insert_text(&mut self, input: &str)
        requires
            old(self).cursor_position + input@.len() <= usize::MAX,
        ensures
            final(self).text@ == if input@.len() == 0 {
                old(self).text@
            } else {
                inserted(old(self).text@, old(self).cursor_position as int, input@)
            },
            final(self).cursor_position == old(self).cursor_position + input@.len(),
            *final(self) == (InputBoxNode {
                text: final(self).text,
                cursor_position: final(self).cursor_position,
                ..*old(self)
            }),
    {
        let count = input.unicode_len();
        if count == 0 {
            return;
        }
        let len = self.text.as_str().unicode_len();
        let at = if self.cursor_position < len { self.cursor_position } else { len };
        let mut edited = String::from_str(self.text.as_str().substring_char(0, at));
        edited.append(input);
        edited.append(self.text.as_str().substring_char(at, len));
        self.text = edited;
        self.cursor_position = self.cursor_position + count;
        proof {
            assert(old(self).text@.take(at as int) =~= old(self).text@.subrange(0, at as int));
            assert(old(self).text@.skip(at as int) =~= old(self).text@.subrange(at as int, len as int));
        }
    }
}

/// What a text field's input step asks of its caller: calling the change callback
/// with the text after typed input was inserted, and again after a backspace;
/// calling the enter callback with the text; restarting the cursor blink.
pub struct InputResponse {
    pub changed_after_insert: Option<String>,
    pub changed_after_backspace: Option<String>,
    pub entered: Option<String>,
    pub restart_blink: bool,
}

impl<Cb> InputBoxNode<Cb> {
    /// One input step of the field. A click focuses the field when it landed on it
    /// (`hovered`), putting the cursor at the end of the text, and unfocuses it
    /// otherwise. While focused, typed `text_input` is inserted at the cursor, a
    /// `backspace` deletes the character before the cursor, and `enter` is
    /// reported; each edit shows the cursor and restarts its blink. The cursor is
    /// then kept on the text, and the field asks for a repaint.
    pub fn handle_input(
        &mut self,
        clicked: bool,
        hovered: bool,
        text_input: &str,
        backspace: bool,
        enter: bool,
    ) -> (r: InputResponse)
        requires
            old(self).cursor_position + text_input@.len() <= usize::MAX,
            old(self).text@.len() + text_input@.len() <= usize::MAX,
        ensures
            ({
                let focused = if clicked { hovered } else { old(self).is_focused };
                let refocused = clicked && hovered;
                let c0: int = if refocused { old(self).text@.len() as int } else { old(self).cursor_position as int };
                let typed = focused && text_input@.len() > 0;
                let t1 = if typed { inserted(old(self).text@, c0, text_input@) } else { old(self).text@ };
                let c1: int = if typed { c0 + text_input@.len() } else { c0 };
                let erased = focused && backspace;
                let t2 = if erased { backspaced(t1, c1) } else { t1 };
                let c2: int = if erased { backspace_cursor(t1.len() as int, c1) } else { c1 };
                &&& final(self).is_focused == focused
                &&& final(self).text@ == t2
                &&& final(self).cursor_position == min_int(c2, t2.len() as int)
                &&& final(self).cursor_visible == (refocused || typed || erased || old(self).cursor_visible)
                &&& r.restart_blink == (refocused || typed || erased)
                &&& (if typed { r.changed_after_insert matches Some(t) && t@ == t1 } else { r.changed_after_insert is None })
                &&& (if erased { r.changed_after_backspace matches Some(t) && t@ == t2 } else { r.changed_after_backspace is None })
                &&& (if focused && enter { r.entered matches Some(t) && t@ == t2 } else { r.entered is None })
            }),
            final(self).base == (NodeBase { cache_dirty: true, ..old(self).base }),
            final(self).placeholder == old(self).placeholder,
            final(self).on_change == old(self).on_change,
            final(self).on_enter == old(self).on_enter,
    {
        let mut restart = false;
        if clicked {
            self.is_focused = hovered;
            if hovered {
                self.cursor_position = self.text.as_str().unicode_len();
                self.cursor_visible = true;
                restart = true;
            }
        }
        let mut changed_after_insert: Option<String> = None;
        let mut changed_after_backspace: Option<String> = None;
        let mut entered: Option<String> = None;
        if self.is_focused {
            if !text_input.is_empty() {
                self.insert_text(text_input);
                self.cursor_visible = true;
                restart = true;
                changed_after_insert = Some(self.text.clone());
            }
            if backspace {
                self.backspace();
                self.cursor_visible = true;
                restart = true;
                changed_after_backspace = Some(self.text.clone());
            }
            if enter {
                entered = Some(self.text.clone());
            }
        }
        self.clamp_cursor();
        self.base.request_visual_repaint();
        InputResponse { changed_after_insert, changed_after_backspace, entered, restart_blink: restart }
    }
}

/// The text and cursor after `k` backspaces starting from `text` and `cursor`.
pub open spec fn backspace_times(text: Seq<char>, cursor: int, k: nat) -> (Seq<char>, int)
    decreases k,
{
    if k == 0 {
        (text, cursor)
    } else {
        let (t, c) = backspace_times(text, cursor, (k - 1) as nat);
        (backspaced(t, c), backspace_cursor(t.len() as int, c))
    }
}

proof fn lemma_backspaces_undo_prefix(text: Seq<char>, cursor: int, input: Seq<char>, k: nat)
    requires
        0 <= cursor <= text.len(),
        k <= input.len(),
    ensures
        backspace_times(inserted(text, cursor, input), cursor + input.len(), k) == (
            text.take(cursor) + input.take(input.len() - k) + text.skip(cursor),
            cursor + input.len() - k,
        ),
    decreases k,
{
    let n = input.len() as int;
    if k == 0 {
        assert(input.take(n) =~= input);
        assert(inserted(text, cursor, input) =~= text.take(cursor) + input.take(n) + text.skip(cursor));
    } else {
        lemma_backspaces_undo_prefix(text, cursor, input, (k - 1) as nat);
        let t = text.take(cursor) + input.take(n - (k - 1)) + text.skip(cursor);
        let c = cursor + n - (k - 1);
        assert(c > 0);
        assert(c - 1 < t.len());
        assert(t.take(c - 1) + t.skip(c) =~= text.take(cursor) + input.take(n - k) + text.skip(cursor));
    }
}

/// Inserting any text at a cursor on the text and then deleting as many
/// characters, one backspace each, gives the text and the cursor back.
pub proof fn lemma_insert_then_backspace(text: Seq<char>, cursor: int, input: Seq<char>)
    requires
        0 <= cursor <= text.len(),
    ensures
        backspace_times(inserted(text, cursor, input), cursor + input.len(), input.len()) == (text, cursor),
{
    lemma_backspaces_undo_prefix(text, cursor, input, input.len());
    assert(input.take(0) =~= Seq::<char>::empty());
    assert(text.take(cursor) + input.take(0) + text.skip(cursor) =~= text);
}

} // verus!

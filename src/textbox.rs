//! The editing model of a one-line text box: a buffer of characters and a
//! cursor between them, driven by editing keys and typed text.

use vstd::prelude::*;
use vstd::string::StrSliceExecFns;
use vstd::utf8::encode_utf8;
use crate::text::string_from_chars;

verus! {

/// The character shown in place of each character of hidden input.
pub const MASK_CHAR: char = '\u{2022}';

/// Keys that edit or move within the text.
#[derive(Clone, Copy, Debug, PartialEq, Eq, Structural)]
pub enum EditKey {
    Backspace,
    Left,
    Right,
    Delete,
    Home,
    End,
}

pub struct Textbox {
    buffer: Vec<char>,
    cursor: usize,
    focused: bool,
    id: String,
    pub hide_input: bool,
    pub disabled: bool,
}

/// The text after `key`, with the cursor at `cursor`; returns the new text
/// and cursor.
pub open spec fn edit(text: Seq<char>, cursor: int, key: EditKey) -> (Seq<char>, int) {
    match key {
        EditKey::Backspace => if cursor > 0 {
            (text.remove(cursor - 1), cursor - 1)
        } else {
            (text, cursor)
        },
        EditKey::Left => if cursor > 0 {
            (text, cursor - 1)
        } else {
            (text, cursor)
        },
        EditKey::Right => if cursor < text.len() {
            (text, cursor + 1)
        } else {
            (text, cursor)
        },
        EditKey::Delete => if cursor < text.len() {
            (text.remove(cursor), cursor)
        } else {
            (text, cursor)
        },
        EditKey::Home => (text, 0),
        EditKey::End => (text, text.len() as int),
    }
}

impl Textbox {
    pub closed spec fn text_spec(&self) -> Seq<char> {
        self.buffer@
    }

    pub closed spec fn cursor_spec(&self) -> int {
        self.cursor as int
    }

    pub closed spec fn focused_spec(&self) -> bool {
        self.focused
    }

    pub closed spec fn id_spec(&self) -> Seq<char> {
        self.id@
    }

    pub closed spec fn hides_input(&self) -> bool {
        self.hide_input
    }

    pub closed spec fn is_disabled_spec(&self) -> bool {
        self.disabled
    }

    /// The cursor lies within the text.
    pub closed spec fn wf(&self) -> bool {
        self.cursor <= self.buffer@.len()
    }

    /// An empty, focused, enabled text box.
    pub fn new(id: &str, hide_input: bool) -> (r: Self)
        ensures
            r.wf(),
            r.text_spec() == Seq::<char>::empty(),
            r.cursor_spec() == 0,
            r.focused_spec(),
            r.id_spec() == id@,
            r.hides_input() == hide_input,
            !r.is_disabled_spec(),
    {
        Textbox {
            buffer: Vec::new(),
            cursor: 0,
            focused: true,
            id: id.to_owned(),
            hide_input,
            disabled: false,
        }
    }

    pub fn set_focused(&mut self, value: bool)
        ensures
            final(self).focused_spec() == value,
            final(self).text_spec() == old(self).text_spec(),
            final(self).cursor_spec() == old(self).cursor_spec(),
            final(self).id_spec() == old(self).id_spec(),
            final(self).hides_input() == old(self).hides_input(),
            final(self).is_disabled_spec() == old(self).is_disabled_spec(),
            final(self).wf() == old(self).wf(),
    {
        self.focused = value;
    }

    pub fn is_focused(&self) -> (r: bool)
        ensures
            r == self.focused_spec(),
    {
        self.focused
    }

    /// The text typed so far.
    pub fn text(&self) -> (r: String)
        ensures
            r@ == self.text_spec(),
    {
        string_from_chars(&self.buffer)
    }

    pub fn cursor(&self) -> (r: usize)
        ensures
            r == self.cursor_spec(),
    {
        self.cursor
    }

    pub fn id(&self) -> (r: &str)
        ensures
            r@ == self.id_spec(),
    {
        self.id.as_str()
    }

    /// What the box shows: the text, or as many mask characters when the
    /// input is hidden.
    pub fn display_text(&self) -> (r: String)
        ensures
            r@ == if self.hides_input() {
                Seq::new(self.text_spec().len(), |i: int| MASK_CHAR)
            } else {
                self.text_spec()
            },
    {
        if self.hide_input {
            let mut masked: Vec<char> = Vec::new();
            let mut i: usize = 0;
            while i < self.buffer.len()
                invariant
                    i <= self.buffer@.len(),
                    masked@ == Seq::new(i as nat, |j: int| MASK_CHAR),
                decreases self.buffer@.len() - i,
            {
                masked.push(MASK_CHAR);
                proof {
                    assert(masked@ =~= Seq::new((i + 1) as nat, |j: int| MASK_CHAR));
                }
                i = i + 1;
            }
            string_from_chars(&masked)
        } else {
            string_from_chars(&self.buffer)
        }
    }

    /// Applies one editing key, then inserts the typed text at the cursor
    /// and moves the cursor past it. A box that is unfocused or disabled
    /// ignores both.
    pub fn update(&mut self, key: Option<EditKey>, typed: &str)
        requires
            old(self).wf(),
        ensures
            final(self).wf(),
            final(self).id_spec() == old(self).id_spec(),
            final(self).focused_spec() == old(self).focused_spec(),
            final(self).hides_input() == old(self).hides_input(),
            final(self).is_disabled_spec() == old(self).is_disabled_spec(),
            ({
                let (t, c) = match key {
                    Some(k) => edit(old(self).text_spec(), old(self).cursor_spec(), k),
                    None => (old(self).text_spec(), old(self).cursor_spec()),
                };
                if !old(self).focused_spec() || old(self).is_disabled_spec() {
                    final(self).text_spec() == old(self).text_spec() && final(self).cursor_spec()
                        == old(self).cursor_spec()
                } else {
                    final(self).text_spec() == t.subrange(0, c) + typed@ + t.subrange(
                        c,
                        t.len() as int,
                    ) && final(self).cursor_spec() == c + typed@.len()
                }
            }),
    {
        if !self.focused || self.disabled {
            return;
        }
        match key {
            Some(k) => self.apply_key(k),
            None => {},
        }
        self.insert_text(typed);
    }

    fn apply_key(&mut self, key: EditKey)
        requires
            old(self).wf(),
        ensures
            final(self).wf(),
            (final(self).text_spec(), final(self).cursor_spec()) == edit(
                old(self).text_spec(),
                old(self).cursor_spec(),
                key,
            ),
            final(self).id_spec() == old(self).id_spec(),
            final(self).focused_spec() == old(self).focused_spec(),
            final(self).hides_input() == old(self).hides_input(),
            final(self).is_disabled_spec() == old(self).is_disabled_spec(),
    {
        match key {
            EditKey::Backspace => {
                if self.cursor > 0 {
                    self.buffer.remove(self.cursor - 1);
                    self.cursor = self.cursor - 1;
                }
            },
            EditKey::Left => {
                if self.cursor > 0 {
                    self.cursor = self.cursor - 1;
                }
            },
            EditKey::Right => {
                if self.cursor < self.buffer.len() {
                    self.cursor = self.cursor + 1;
                }
            },
            EditKey::Delete => {
                if self.cursor < self.buffer.len() {
                    self.buffer.remove(self.cursor);
                }
            },
            EditKey::Home => {
                self.cursor = 0;
            },
            EditKey::End => {
                self.cursor = self.buffer.len();
            },
        }
    }

    fn insert_text(&mut self, typed: &str)
        requires
            old(self).wf(),
        ensures
            final(self).wf(),
            final(self).text_spec() == old(self).text_spec().subrange(0, old(self).cursor_spec())
                + typed@ + old(self).text_spec().subrange(
                old(self).cursor_spec(),
                old(self).text_spec().len() as int,
            ),
            final(self).cursor_spec() == old(self).cursor_spec() + typed@.len(),
            final(self).id_spec() == old(self).id_spec(),
            final(self).focused_spec() == old(self).focused_spec(),
            final(self).hides_input() == old(self).hides_input(),
            final(self).is_disabled_spec() == old(self).is_disabled_spec(),
    {
        let ghost t0 = self.buffer@;
        let ghost c0 = self.cursor as int;
        let n = typed.unicode_len();
        let mut k: usize = 0;
        while k < n
            invariant
                n == typed@.len(),
                k <= n,
                0 <= c0 <= t0.len(),
                self.cursor == c0 + k,
                self.buffer@ == t0.subrange(0, c0) + typed@.subrange(0, k as int) + t0.subrange(
                    c0,
                    t0.len() as int,
                ),
                self.id@ == old(self).id@,
                self.focused == old(self).focused,
                self.hide_input == old(self).hide_input,
                self.disabled == old(self).disabled,
            decreases n - k,
        {
            let c = typed.get_char(k);
            proof {
                assert(self.cursor <= self.buffer@.len());
            }
            self.buffer.insert(self.cursor, c);
            proof {
                assert(self.buffer@ =~= t0.subrange(0, c0) + typed@.subrange(0, k + 1)
                    + t0.subrange(c0, t0.len() as int));
            }
            let len = self.buffer.len();
            assert(self.cursor < len);
            self.cursor = self.cursor + 1;
            k = k + 1;
        }
        proof {
            assert(typed@.subrange(0, n as int) =~= typed@);
        }
    }

    /// The number of characters of `s`.
    pub fn chars_count(s: &str) -> (r: usize)
        ensures
            r == s@.len(),
    {
        s.unicode_len()
    }

    /// The byte position in `s` of character `char_index`, or the length of
    /// `s` in bytes when `s` has no character at that index.
    pub fn char_index_to_byte_index(s: &str, char_index: usize) -> (r: usize)
        ensures
            r == encode_utf8(
                s@.subrange(0, if char_index < s@.len() { char_index as int } else { s@.len() as int }),
            ).len() as usize,
    {
        let count = Self::chars_count(s);
        let end = if char_index < count {
            char_index
        } else {
            count
        };
        s.substring_char(0, end).len()
    }
}

} // verus!

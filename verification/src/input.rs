//! A line of text that the user edits.

use vstd::prelude::*;
use vstd::string::*;
use vstd::utf8::*;

use crate::style::{
    lemma_spans_push, line, line_of, span, span_of, spans_view, LineView, Span, SpanView, Style,
    TextLine,
};
use crate::text::{
    boundary, byte_len, bytes_in, char_index, chars_of, is_boundary, lemma_ascii_boundary,
    lemma_ends,
};

verus! {

/// A key of the keyboard.
#[derive(Clone, Copy, Debug, PartialEq, Eq, Structural)]
pub enum Key {
    Down,
    Up,
    Left,
    Right,
    Enter,
    Esc,
    Tab,
    Delete,
    Backspace,
    PageUp,
    PageDown,
    Char(char),
    /// Any other key.
    Other,
}

/// A line of text with a cursor, shown through a window of `bufsize` cells.
#[derive(Clone, Debug)]
pub struct InputBuffer {
    pub buf: String,
    pub bufsize: usize,
    /// The byte before which the cursor stands.
    pub cursor_pos: usize,
    /// How far the window is scrolled.
    pub scroll_offset: usize,
}

/// What an input line holds.
pub struct InputView {
    pub buf: Seq<char>,
    pub bufsize: usize,
    pub cursor_pos: usize,
    pub scroll_offset: usize,
}

impl View for InputBuffer {
    type V = InputView;

    open spec fn view(&self) -> InputView {
        InputView {
            buf: self.buf@,
            bufsize: self.bufsize,
            cursor_pos: self.cursor_pos,
            scroll_offset: self.scroll_offset,
        }
    }
}

/// A text of more than 65535 cells is shown from its start.
pub open spec fn scroll_cells(offset: usize) -> u16 {
    if offset < 65536 {
        offset as u16
    } else {
        0
    }
}

/// One cell for each character.
pub open spec fn cells_of(text: Seq<char>, style: Style) -> Seq<SpanView> {
    text.map_values(|c: char| span_of(seq![c], style))
}

impl InputView {
    /// The window does not start behind the cursor.
    pub open spec fn wf(self) -> bool {
        self.scroll_offset <= self.cursor_pos
    }

    /// An empty line.
    pub open spec fn empty(bufsize: usize) -> InputView {
        InputView { buf: seq![], bufsize, cursor_pos: 0, scroll_offset: 0 }
    }

    /// The cursor is on the line's ASCII text or at its end.
    pub open spec fn ascii(self) -> bool {
        &&& is_ascii_chars(self.buf)
        &&& self.cursor_pos <= self.buf.len()
        &&& self.wf()
    }

    /// The cursor is inside the window.
    pub open spec fn cursor_shown(self) -> bool {
        self.scroll_offset <= self.cursor_pos < self.scroll_offset + self.bufsize
    }

    pub open spec fn move_left(self) -> InputView {
        if self.cursor_pos > 0 {
            InputView {
                cursor_pos: (self.cursor_pos - 1) as usize,
                scroll_offset: if self.cursor_pos - 1 < self.scroll_offset {
                    (self.scroll_offset - 1) as usize
                } else {
                    self.scroll_offset
                },
                ..self
            }
        } else {
            self
        }
    }

    pub open spec fn move_right(self) -> InputView {
        if self.cursor_pos < byte_len(self.buf) {
            InputView {
                cursor_pos: (self.cursor_pos + 1) as usize,
                scroll_offset: if self.cursor_pos + 1 >= self.bufsize + self.scroll_offset {
                    (self.scroll_offset + 1) as usize
                } else {
                    self.scroll_offset
                },
                ..self
            }
        } else {
            self
        }
    }

    /// The cursor is between two characters, or behind the text.
    pub open spec fn can_add(self) -> bool {
        self.cursor_pos < byte_len(self.buf) ==> boundary(self.buf, self.cursor_pos as int)
    }

    /// The text with `ch` where the cursor is, or at its end.
    pub open spec fn add(self, ch: char) -> InputView {
        let buf = if self.cursor_pos < byte_len(self.buf) {
            self.buf.insert(char_index(self.buf, self.cursor_pos as int), ch)
        } else {
            self.buf.push(ch)
        };
        InputView { buf, ..self }.move_right()
    }

    /// There is a character to take out, and it starts one byte before the cursor.
    pub open spec fn can_backspace(self) -> bool {
        self.cursor_pos > 0 ==> self.buf.len() > 0 && (self.cursor_pos < byte_len(self.buf) - 1
            ==> boundary(self.buf, self.cursor_pos - 1))
    }

    /// The text without the character before the cursor, or without its last one where the cursor
    /// is on the last byte or behind it.
    pub open spec fn backspace(self) -> InputView {
        if self.cursor_pos > 0 {
            let buf = if self.cursor_pos >= byte_len(self.buf) - 1 {
                self.buf.drop_last()
            } else {
                self.buf.remove(char_index(self.buf, self.cursor_pos - 1))
            };
            InputView { buf, ..self }.move_left()
        } else {
            self
        }
    }

    /// The character under the cursor starts there, or the cursor is on the last byte.
    pub open spec fn can_delete(self) -> bool {
        self.cursor_pos < byte_len(self.buf) - 1 ==> boundary(self.buf, self.cursor_pos as int)
    }

    /// The text without the character under the cursor.
    pub open spec fn delete(self) -> InputView {
        if self.cursor_pos < byte_len(self.buf) {
            let buf = if self.cursor_pos == byte_len(self.buf) - 1 {
                self.buf.drop_last()
            } else {
                self.buf.remove(char_index(self.buf, self.cursor_pos as int))
            };
            InputView { buf, ..self }
        } else {
            self
        }
    }

    /// The cells of the line, before any of them shows the cursor.
    pub open spec fn cells(self, placeholder: Seq<char>) -> Seq<SpanView> {
        seq![span_of(seq![' '], Style::Plain)] + (if self.buf.len() > 0 {
            cells_of(self.buf, Style::Plain)
        } else {
            cells_of(placeholder, Style::DarkGray)
        }) + seq![span_of(seq![' '], Style::Plain)]
    }

    /// The cells of the line with a star for each character.
    pub open spec fn masked_cells(self) -> Seq<SpanView> {
        seq![span_of(seq![' '], Style::Plain)] + self.buf.map_values(|c: char| span_of(seq!['*'], Style::Plain))
            + seq![span_of(seq![' '], Style::Plain)]
    }

    /// There is a cell for the cursor.
    pub open spec fn can_draw(self, focused: bool, placeholder: Seq<char>) -> bool {
        self.bufsize >= 1 && focused ==> self.cursor_pos + 1 < self.cells(placeholder).len()
    }

    /// There is a cell for the cursor.
    pub open spec fn can_draw_masked(self, focused: bool) -> bool {
        self.bufsize >= 1 && focused ==> self.cursor_pos + 1 < self.masked_cells().len()
    }

    /// The line as it is shown.
    pub open spec fn draw(self, focused: bool, placeholder: Seq<char>) -> (LineView, u16) {
        if self.bufsize < 1 {
            (line_of(seq![]), 0)
        } else {
            let cells = self.cells(placeholder);
            let at = self.cursor_pos + 1;
            let shown = if focused {
                cells.update(
                    at,
                    span_of(cells[at].text, Style::Cursor),
                )
            } else {
                cells
            };
            (line_of(shown), scroll_cells(self.scroll_offset))
        }
    }

    /// The line as it is shown where it must not be read.
    pub open spec fn draw_masked(self, focused: bool) -> LineView {
        if self.bufsize < 1 {
            line_of(seq![])
        } else {
            let cells = self.masked_cells();
            let at = self.cursor_pos + 1;
            if focused {
                line_of(
                    cells.update(
                        at,
                        span_of(cells[at].text, Style::OnCyan),
                    ),
                )
            } else {
                line_of(cells)
            }
        }
    }
}

impl InputView {
    /// A key can be pressed here.
    pub open spec fn can_press(self, key: Key) -> bool {
        match key {
            Key::Char(_) => self.can_add(),
            Key::Backspace => self.can_backspace(),
            Key::Delete => self.can_delete(),
            _ => true,
        }
    }

    /// The line after a key is pressed. Keys that do not edit it leave it as it is.
    pub open spec fn press(self, key: Key) -> InputView {
        match key {
            Key::Char(c) => self.add(c),
            Key::Backspace => self.backspace(),
            Key::Delete => self.delete(),
            Key::Left => self.move_left(),
            Key::Right => self.move_right(),
            _ => self,
        }
    }
}

impl InputBuffer {
    /// An empty line.
    pub fn new(bufsize: usize) -> (r: InputBuffer)
        ensures
            r@ == InputView::empty(bufsize),
            r@.wf(),
    {
        InputBuffer { buf: String::new(), bufsize, cursor_pos: 0, scroll_offset: 0 }
    }

    /// A line with the text `s` and the cursor behind it.
    pub fn from(s: String, bufsize: usize) -> (r: InputBuffer)
        ensures
            r@ == (InputView {
                buf: s@,
                bufsize,
                cursor_pos: byte_len(s@) as usize,
                scroll_offset: byte_len(s@) as usize,
            }),
            r.cursor_pos == byte_len(s@),
            r@.wf(),
    {
        let end = bytes_in(s.as_str());
        InputBuffer { buf: s, bufsize, cursor_pos: end, scroll_offset: end }
    }

    /// Empties the line.
    pub fn clear(&mut self)
        ensures
            final(self)@ == InputView::empty(old(self).bufsize),
            final(self)@.wf(),
    {
        self.buf = String::new();
        self.cursor_pos = 0;
        self.scroll_offset = 0;
    }

    /// Types a character.
    pub fn add(&mut self, ch: char)
        requires
            old(self)@.wf(),
            old(self)@.can_add(),
        ensures
            final(self)@ == old(self)@.add(ch),
            final(self)@.wf(),
    {
        if self.cursor_pos < bytes_in(self.buf.as_str()) {
            self.buf.insert(self.cursor_pos, ch);
        } else {
            self.buf.push(ch);
        }
        self.move_right();
    }

    /// Takes out the character before the cursor.
    pub fn backspace(&mut self)
        requires
            old(self)@.wf(),
            old(self)@.can_backspace(),
        ensures
            final(self)@ == old(self)@.backspace(),
            final(self)@.wf(),
    {
        if self.cursor_pos > 0 {
            proof {
                lemma_ends(self.buf@);
            }
            if self.cursor_pos >= bytes_in(self.buf.as_str()) - 1 {
                self.buf.pop();
            } else {
                self.buf.remove(self.cursor_pos - 1);
            }
            self.move_left();
        }
    }

    /// Takes out the character under the cursor.
    pub fn delete(&mut self)
        requires
            old(self)@.wf(),
            old(self)@.can_delete(),
        ensures
            final(self)@ == old(self)@.delete(),
            final(self)@.wf(),
    {
        if self.cursor_pos < bytes_in(self.buf.as_str()) {
            proof {
                lemma_ends(self.buf@);
            }
            if self.cursor_pos == bytes_in(self.buf.as_str()) - 1 {
                self.buf.pop();
            } else {
                self.buf.remove(self.cursor_pos);
            }
        }
    }

    /// Moves the cursor to the left.
    pub fn move_left(&mut self)
        requires
            old(self)@.wf(),
        ensures
            final(self)@ == old(self)@.move_left(),
            final(self)@.wf(),
    {
        if self.cursor_pos > 0 {
            self.cursor_pos -= 1;
            if self.cursor_pos < self.scroll_offset {
                self.scroll_offset -= 1;
            }
        }
    }

    /// Moves the cursor to the right.
    pub fn move_right(&mut self)
        requires
            old(self)@.wf(),
        ensures
            final(self)@ == old(self)@.move_right(),
            final(self)@.wf(),
    {
        if self.cursor_pos < bytes_in(self.buf.as_str()) {
            self.cursor_pos += 1;
            if self.cursor_pos - self.scroll_offset >= self.bufsize {
                self.scroll_offset += 1;
            }
        }
    }

    /// Whether a character can be typed.
    pub fn can_add(&self) -> (r: bool)
        ensures
            r == self@.can_add(),
    {
        self.cursor_pos >= bytes_in(self.buf.as_str()) || is_boundary(
            self.buf.as_str(),
            self.cursor_pos,
        )
    }

    /// Whether the character before the cursor can be taken out.
    pub fn can_backspace(&self) -> (r: bool)
        ensures
            r == self@.can_backspace(),
    {
        proof {
            lemma_ends(self.buf@);
        }
        let len = bytes_in(self.buf.as_str());
        self.cursor_pos == 0 || (len > 0 && (self.cursor_pos >= len - 1 || is_boundary(
            self.buf.as_str(),
            self.cursor_pos - 1,
        )))
    }

    /// Whether the character under the cursor can be taken out.
    pub fn can_delete(&self) -> (r: bool)
        ensures
            r == self@.can_delete(),
    {
        let len = bytes_in(self.buf.as_str());
        len == 0 || self.cursor_pos >= len - 1 || is_boundary(self.buf.as_str(), self.cursor_pos)
    }

    /// Whether a key can be pressed here.
    pub fn can_press(&self, key: Key) -> (r: bool)
        ensures
            r == self@.can_press(key),
    {
        match key {
            Key::Char(_) => self.can_add(),
            Key::Backspace => self.can_backspace(),
            Key::Delete => self.can_delete(),
            _ => true,
        }
    }

    /// Takes a key that edits the line; leaves every other one.
    pub fn press(&mut self, key: Key)
        requires
            old(self)@.wf(),
            old(self)@.can_press(key),
        ensures
            final(self)@ == old(self)@.press(key),
            final(self)@.wf(),
    {
        match key {
            Key::Char(c) => self.add(c),
            Key::Backspace => self.backspace(),
            Key::Delete => self.delete(),
            Key::Left => self.move_left(),
            Key::Right => self.move_right(),
            _ => {},
        }
    }

    /// Whether there is a cell for the cursor.
    pub fn can_draw(&self, focused: bool, placeholder: &str) -> (r: bool)
        ensures
            r == self@.can_draw(focused, placeholder@),
    {
        let count = self.buf.as_str().unicode_len();
        let cells: usize = if count > 0 {
            count
        } else {
            placeholder.unicode_len()
        };
        self.bufsize < 1 || !focused || self.cursor_pos <= cells
    }

    /// Whether there is a cell for the cursor.
    pub fn can_draw_masked(&self, focused: bool) -> (r: bool)
        ensures
            r == self@.can_draw_masked(focused),
    {
        self.bufsize < 1 || !focused || self.cursor_pos <= self.buf.as_str().unicode_len()
    }

    /// The line as it is shown, with the scroll of its window. Where it is empty, the placeholder
    /// stands in its place.
    pub fn draw(&self, focused: bool, placeholder: Option<String>) -> (r: (TextLine, u16))
        requires
            self@.can_draw(
                focused,
                if placeholder is Some {
                    placeholder->0@
                } else {
                    seq![]
                },
            ),
        ensures
            (r.0@, r.1) == self@.draw(
                focused,
                if placeholder is Some {
                    placeholder->0@
                } else {
                    seq![]
                },
            ),
    {
        if self.bufsize < 1 {
            let none: Vec<Span> = Vec::new();
            assert(spans_view(none@) =~= seq![]);
            return (line(none), 0);
        }
        let hint = match placeholder {
            Some(text) => text,
            None => String::new(),
        };
        assert(hint@ =~= if placeholder is Some {
            placeholder->0@
        } else {
            seq![]
        });
        let typed = self.buf.as_str().unicode_len() > 0;
        let style = if typed {
            Style::Plain
        } else {
            Style::DarkGray
        };
        let chars = if typed {
            chars_of(self.buf.as_str())
        } else {
            chars_of(hint.as_str())
        };
        let mut text = cell_spans(&chars, style);
        proof {
            assert(spans_view(text@) =~= self@.cells(hint@));
        }
        let count = text.len();
        if focused {
            assert(count == self@.cells(hint@).len());
            let at = self.cursor_pos + 1;
            let ghost before = text@;
            let shown = Span { text: text[at].text.clone(), style: Style::Cursor };
            text[at] = shown;
            assert(spans_view(text@) =~= spans_view(before).update(at as int, shown@));
        }
        let scroll: u16 = if self.scroll_offset < 65536 {
            self.scroll_offset as u16
        } else {
            0
        };
        (line(text), scroll)
    }

    /// The line as it is shown where it must not be read.
    pub fn draw_masked(&self, focused: bool) -> (r: TextLine)
        requires
            self@.can_draw_masked(focused),
        ensures
            r@ == self@.draw_masked(focused),
    {
        if self.bufsize < 1 {
            let none: Vec<Span> = Vec::new();
            assert(spans_view(none@) =~= seq![]);
            return line(none);
        }
        let mut stars: Vec<char> = Vec::new();
        let length = self.buf.as_str().unicode_len();
        while stars.len() < length
            invariant
                stars@.len() <= length,
                forall|i: int| 0 <= i < stars@.len() ==> stars@[i] == '*',
            decreases length - stars@.len(),
        {
            stars.push('*');
        }
        let mut text = cell_spans(&stars, Style::Plain);
        proof {
            assert(spans_view(text@) =~= self@.masked_cells());
        }
        let count = text.len();
        if focused {
            assert(count == self@.masked_cells().len());
            let at = self.cursor_pos + 1;
            let ghost before = text@;
            let shown = Span { text: text[at].text.clone(), style: Style::OnCyan };
            text[at] = shown;
            assert(spans_view(text@) =~= spans_view(before).update(at as int, shown@));
        }
        line(text)
    }
}

/// One cell for each character, between two blanks.
fn cell_spans(chars: &Vec<char>, style: Style) -> (r: Vec<Span>)
    ensures
        spans_view(r@) == seq![span_of(seq![' '], Style::Plain)] + cells_of(chars@, style) + seq![
            span_of(seq![' '], Style::Plain),
        ],
{
    let mut r: Vec<Span> = Vec::new();
    proof {
        reveal_strlit(" ");
        assert(" "@ =~= seq![' ']);
    }
    r.push(span(" ", Style::Plain));
    let mut i: usize = 0;
    assert(spans_view(r@) =~= seq![span_of(seq![' '], Style::Plain)] + cells_of(chars@.take(0), style));
    while i < chars.len()
        invariant
            i <= chars@.len(),
            spans_view(r@) == seq![span_of(seq![' '], Style::Plain)] + cells_of(
                chars@.take(i as int),
                style,
            ),
        decreases chars@.len() - i,
    {
        let mut text = String::new();
        text.push(chars[i]);
        let cell = Span { text, style };
        proof {
            assert(text@ =~= seq![chars@[i as int]]);
            lemma_spans_push(r@, cell);
            assert(cells_of(chars@.take(i + 1), style) =~= cells_of(
                chars@.take(i as int),
                style,
            ).push(cell@));
        }
        r.push(cell);
        assert(spans_view(r@) =~= seq![span_of(seq![' '], Style::Plain)] + cells_of(
            chars@.take(i + 1),
            style,
        ));
        i += 1;
    }
    assert(chars@.take(chars@.len() as int) =~= chars@);
    r.push(span(" ", Style::Plain));
    assert(spans_view(r@) =~= seq![span_of(seq![' '], Style::Plain)] + cells_of(chars@, style) + seq![
        span_of(seq![' '], Style::Plain),
    ]);
    r
}

/// Keys whose characters are ASCII.
pub open spec fn ascii_key(key: Key) -> bool {
    key matches Key::Char(c) ==> c <= '\u{7f}'
}

/// A line of ASCII text with the cursor in it takes every key, stays such a line, and can be
/// drawn.
pub proof fn law_ascii_takes_every_key(line: InputView, key: Key)
    requires
        line.ascii(),
        ascii_key(key),
        line.buf.len() < usize::MAX,
    ensures
        line.can_press(key),
        line.press(key).ascii(),
        forall|focused: bool, placeholder: Seq<char>| #[trigger]
            line.can_draw(focused, placeholder),
        forall|focused: bool| #[trigger] line.can_draw_masked(focused),
{
    let at = line.cursor_pos as int;
    lemma_ascii_boundary(line.buf, at);
    if at > 0 {
        lemma_ascii_boundary(line.buf, at - 1);
    }
    let after = line.press(key);
    match key {
        Key::Char(c) => {
            assert(is_ascii_chars(after.buf));
            lemma_ascii_boundary(after.buf, 0);
        },
        Key::Backspace => {
            assert(is_ascii_chars(after.buf));
        },
        Key::Delete => {
            assert(is_ascii_chars(after.buf));
        },
        _ => {},
    }
}

/// A cursor inside the window stays there, whichever key is pressed.
pub proof fn law_cursor_stays_shown(line: InputView, key: Key)
    requires
        line.cursor_shown(),
        line.cursor_pos < usize::MAX,
    ensures
        line.press(key).cursor_shown(),
{
}

/// Backspace takes back a character typed into an ASCII line, but for one place: before the last
/// character of the line.
pub proof fn law_backspace_undoes_typing(line: InputView, c: char)
    requires
        line.ascii(),
        line.cursor_pos + 1 != line.buf.len(),
        c <= '\u{7f}',
        line.buf.len() < usize::MAX,
    ensures
        line.add(c).backspace().buf == line.buf,
        line.add(c).backspace().cursor_pos == line.cursor_pos,
{
    let at = line.cursor_pos as int;
    let typed = line.add(c).buf;
    lemma_ascii_boundary(line.buf, at);
    assert(typed =~= line.buf.insert(at, c));
    assert(is_ascii_chars(typed));
    lemma_ascii_boundary(typed, at);
    if at == line.buf.len() {
        assert(typed.drop_last() =~= line.buf);
    } else {
        assert(typed.remove(at) =~= line.buf);
    }
}

/// A step to the left takes back one to the right, wherever the window has gone.
pub proof fn law_left_undoes_right(line: InputView)
    requires
        line.cursor_pos < byte_len(line.buf),
        line.cursor_pos < usize::MAX,
    ensures
        line.move_right().move_left().buf == line.buf,
        line.move_right().move_left().cursor_pos == line.cursor_pos,
{
}

/// The line after the characters of a text are typed.
pub open spec fn typed(line: InputView, text: Seq<char>) -> InputView
    decreases text.len(),
{
    if text.len() == 0 {
        line
    } else {
        typed(line, text.drop_last()).add(text.last())
    }
}

/// ASCII text typed into an empty line is what the line holds, with the cursor behind it.
pub proof fn law_line_holds_what_is_typed(bufsize: usize, text: Seq<char>)
    requires
        is_ascii_chars(text),
        text.len() < usize::MAX,
    ensures
        typed(InputView::empty(bufsize), text).buf == text,
        typed(InputView::empty(bufsize), text).cursor_pos == text.len(),
        typed(InputView::empty(bufsize), text).ascii(),
    decreases text.len(),
{
    let line = InputView::empty(bufsize);
    if text.len() == 0 {
        assert(line.buf =~= text);
    } else {
        let before = text.drop_last();
        assert(is_ascii_chars(before));
        law_line_holds_what_is_typed(bufsize, before);
        law_ascii_takes_every_key(typed(line, before), Key::Char(text.last()));
        assert(before.push(text.last()) =~= text);
        lemma_ascii_boundary(before, before.len() as int);
        lemma_ascii_boundary(text, text.len() as int);
    }
}

/// What a masked line shows says nothing of its characters but how many they are.
pub proof fn law_mask_hides_characters(a: InputView, b: InputView, focused: bool)
    requires
        a.buf.len() == b.buf.len(),
        a.bufsize == b.bufsize,
        a.cursor_pos == b.cursor_pos,
    ensures
        a.draw_masked(focused) == b.draw_masked(focused),
{
    assert(a.masked_cells() =~= b.masked_cells());
}

} // verus!

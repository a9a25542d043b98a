//! What holds of a line of text that the user edits.

use vstd::prelude::*;
use vstd::string::*;

use crate::input::{InputView, Key};
use crate::style::{Align, SpanView, Style};
use crate::text::{
    at_byte, byte_len, char_bytes, lemma_byte_len_add, lemma_byte_len_push, lemma_char_index,
    lemma_ends,
};

verus! {

/// The text of the line is `a` before the cursor and `b` behind it.
pub open spec fn cursor_between(line: InputView, a: Seq<char>, b: Seq<char>) -> bool {
    line.buf == a + b && line.cursor_pos == byte_len(a)
}

proof fn lemma_cursor_index(line: InputView, a: Seq<char>, b: Seq<char>)
    requires
        cursor_between(line, a, b),
    ensures
        crate::text::boundary(line.buf, line.cursor_pos as int),
        crate::text::char_index(line.buf, line.cursor_pos as int) == a.len(),
        byte_len(line.buf) == byte_len(a) + byte_len(b),
        b.len() > 0 <==> byte_len(b) > 0,
        b.len() <= byte_len(b),
{
    assert((a + b).take(a.len() as int) =~= a);
    assert(at_byte(line.buf, line.cursor_pos as int, a.len() as int));
    lemma_char_index(line.buf, line.cursor_pos as int, a.len() as int);
    lemma_byte_len_add(a, b);
    lemma_ends(b);
}

/// A character that is typed stands where the cursor was, and the cursor goes on by one.
pub proof fn law_character_is_typed_at_the_cursor(
    line: InputView,
    a: Seq<char>,
    b: Seq<char>,
    c: char,
)
    requires
        cursor_between(line, a, b),
        line.cursor_pos < usize::MAX,
    ensures
        line.can_press(Key::Char(c)),
        line.press(Key::Char(c)).buf == a.push(c) + b,
        line.press(Key::Char(c)).cursor_pos == line.cursor_pos + 1,
        line.press(Key::Char(c)).bufsize == line.bufsize,
{
    lemma_cursor_index(line, a, b);
    lemma_byte_len_push(a, c);
    lemma_byte_len_add(a.push(c), b);
    if b.len() == 0 {
        assert(line.buf.push(c) =~= a.push(c) + b);
    } else {
        assert(line.buf.insert(a.len() as int, c) =~= a.push(c) + b);
    }
}

/// Backspace takes the character before the cursor out, and the cursor goes back by one. Where the
/// cursor is before the last character, that one is taken out instead.
pub proof fn law_backspace_takes_the_character_before(
    line: InputView,
    a: Seq<char>,
    x: char,
    b: Seq<char>,
)
    requires
        cursor_between(line, a.push(x), b),
        char_bytes(x) == 1,
    ensures
        line.can_press(Key::Backspace),
        line.press(Key::Backspace).buf == if byte_len(b) == 1 {
            a.push(x)
        } else {
            a + b
        },
        line.press(Key::Backspace).cursor_pos == line.cursor_pos - 1,
        line.press(Key::Backspace).bufsize == line.bufsize,
{
    lemma_cursor_index(line, a.push(x), b);
    lemma_byte_len_push(a, x);
    let at = line.cursor_pos - 1;
    assert(line.buf.take(a.len() as int) =~= a);
    assert(at_byte(line.buf, at, a.len() as int));
    lemma_char_index(line.buf, at, a.len() as int);
    if byte_len(b) == 0 {
        assert(line.buf.drop_last() =~= a + b);
    } else if byte_len(b) == 1 {
        assert(b.len() == 1);
        assert(line.buf.drop_last() =~= a.push(x));
    } else {
        assert(line.buf.remove(a.len() as int) =~= a + b);
    }
}

/// Delete takes the character behind the cursor out; the cursor stays.
pub proof fn law_delete_takes_the_character_behind(
    line: InputView,
    a: Seq<char>,
    x: char,
    b: Seq<char>,
)
    requires
        cursor_between(line, a, seq![x] + b),
    ensures
        line.can_press(Key::Delete),
        line.press(Key::Delete).buf == a + b,
        line.press(Key::Delete).cursor_pos == line.cursor_pos,
        line.press(Key::Delete).scroll_offset == line.scroll_offset,
        line.press(Key::Delete).bufsize == line.bufsize,
{
    let rest = seq![x] + b;
    lemma_cursor_index(line, a, rest);
    if line.cursor_pos == byte_len(line.buf) - 1 {
        assert(rest.len() == 1);
        assert(line.buf.drop_last() =~= a + b);
    } else {
        assert(line.buf.remove(a.len() as int) =~= a + b);
    }
}

/// At the end of the text there is nothing to delete, and at its start nothing for Backspace.
pub proof fn law_nothing_to_take_at_the_ends(line: InputView)
    ensures
        line.cursor_pos >= byte_len(line.buf) ==> line.can_press(Key::Delete) && line.press(
            Key::Delete,
        ) == line,
        line.cursor_pos == 0 ==> line.can_press(Key::Backspace) && line.press(Key::Backspace)
            == line,
{
}

/// Left and Right move the cursor by one byte inside of the text. The window is scrolled by one cell
/// at most, and only where the cursor would leave it. The text stays.
pub proof fn law_arrows_move_the_cursor(line: InputView)
    requires
        line.cursor_pos < usize::MAX,
        line.scroll_offset <= line.cursor_pos,
    ensures
        ({
            let left = line.press(Key::Left);
            let right = line.press(Key::Right);
            &&& line.can_press(Key::Left) && line.can_press(Key::Right)
            &&& left.buf == line.buf && right.buf == line.buf
            &&& left.bufsize == line.bufsize && right.bufsize == line.bufsize
            &&& left.cursor_pos == if line.cursor_pos == 0 {
                0
            } else {
                line.cursor_pos - 1
            }
            &&& left.scroll_offset == if line.scroll_offset <= left.cursor_pos {
                line.scroll_offset as int
            } else {
                line.scroll_offset - 1
            }
            &&& right.cursor_pos == if line.cursor_pos >= byte_len(line.buf) {
                line.cursor_pos as int
            } else {
                line.cursor_pos + 1
            }
            &&& right.scroll_offset == if right.cursor_pos == line.cursor_pos
                || right.cursor_pos < line.scroll_offset + line.bufsize {
                line.scroll_offset as int
            } else {
                line.scroll_offset + 1
            }
        }),
{
}

/// Keys that do not edit leave the line as it is.
pub proof fn law_other_keys_leave_the_line(line: InputView, key: Key)
    requires
        match key {
            Key::Char(_) => false,
            Key::Backspace => false,
            Key::Delete => false,
            Key::Left => false,
            Key::Right => false,
            _ => true,
        },
    ensures
        line.can_press(key),
        line.press(key) == line,
{
}

/// The cells show the text character by character, between two blanks.
pub open spec fn cells_show(cells: Seq<SpanView>, text: Seq<char>) -> bool {
    &&& cells.len() == text.len() + 2
    &&& cells[0].text == seq![' ']
    &&& cells.last().text == seq![' ']
    &&& forall|i: int| 0 <= i < text.len() ==> (#[trigger] cells[i + 1]).text == seq![text[i]]
}

/// A line is drawn with one cell for each character between two blanks, scrolled as its window is.
/// The cell at the cursor, and no other one, is marked where the line has the keys. In the place of
/// an empty text the placeholder is drawn, in grey.
pub proof fn law_line_is_drawn_as_it_is(line: InputView, focused: bool, placeholder: Seq<char>)
    requires
        line.bufsize >= 1,
        line.scroll_offset < 65536,
        focused ==> line.cursor_pos <= if line.buf.len() > 0 {
            line.buf.len()
        } else {
            placeholder.len()
        },
    ensures
        ({
            let (shown, scroll) = line.draw(focused, placeholder);
            let text = if line.buf.len() > 0 {
                line.buf
            } else {
                placeholder
            };
            &&& scroll == line.scroll_offset
            &&& cells_show(shown.spans, text)
            &&& !shown.marked && shown.align == Align::Left
            &&& forall|i: int|
                0 <= i < shown.spans.len() ==> (#[trigger] shown.spans[i]).style == if focused && i
                    == line.cursor_pos + 1 {
                    Style::Cursor
                } else if 0 < i <= text.len() && line.buf.len() == 0 {
                    Style::DarkGray
                } else {
                    Style::Plain
                }
        }),
{
}

/// A masked line is drawn with one star for each character between two blanks. The cell at the cursor
/// is marked where the line has the keys.
pub proof fn law_mask_is_one_star_a_character(line: InputView, focused: bool)
    requires
        line.bufsize >= 1,
        focused ==> line.cursor_pos <= line.buf.len(),
    ensures
        ({
            let shown = line.draw_masked(focused);
            &&& cells_show(shown.spans, Seq::new(line.buf.len(), |i: int| '*'))
            &&& !shown.marked && shown.align == Align::Left
            &&& forall|i: int|
                0 <= i < shown.spans.len() ==> (#[trigger] shown.spans[i]).style == if focused && i
                    == line.cursor_pos + 1 {
                    Style::OnCyan
                } else {
                    Style::Plain
                }
        }),
{
}

/// Without a window nothing is drawn.
pub proof fn law_no_window_shows_nothing(line: InputView, focused: bool, placeholder: Seq<char>)
    requires
        line.bufsize == 0,
    ensures
        line.draw(focused, placeholder).0.spans.len() == 0,
        line.draw_masked(focused).spans.len() == 0,
{
}

} // verus!

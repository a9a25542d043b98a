//! Breaking the text of a message into lines.

use vstd::prelude::*;
use vstd::string::*;

use crate::outside::{graphemes, graphemes_of};
use crate::text::{
    at_byte, boundary, byte_len, char_index, is_boundary, lemma_ends, lemma_take_bytes, texts,
};
use crate::words::{join_with, lemma_without_add, split, split_on, without};

verus! {

/// The first `n` bytes of a text with an ellipsis behind them.
pub open spec fn cut(s: Seq<char>, n: int) -> Seq<char> {
    s.take(char_index(s, n)).push('…')
}

/// The first `n` bytes of a text with an ellipsis behind them, where they end between two
/// characters.
pub fn cut_text(s: &str, n: usize) -> (r: Option<String>)
    requires
        n <= byte_len(s@),
    ensures
        r is Some <==> boundary(s@, n as int),
        r is Some ==> r->0@ == cut(s@, n as int),
{
    if !is_boundary(s, n) {
        return None;
    }
    let mut r = s.to_owned();
    r.truncate(n);
    r.push('…');
    Some(r)
}

/// The clusters put together `n` at a time.
pub open spec fn chunked(clusters: Seq<Seq<char>>, n: nat) -> Seq<Seq<char>>
    decreases clusters.len(),
{
    if clusters.len() == 0 || n == 0 {
        seq![]
    } else if clusters.len() <= n {
        seq![join_with(clusters, seq![])]
    } else {
        seq![join_with(clusters.take(n as int), seq![])] + chunked(clusters.skip(n as int), n)
    }
}

/// The words, those of more than `n` clusters in parts of so many.
pub open spec fn pieces(words: Seq<Seq<char>>, n: nat) -> Seq<Seq<char>>
    decreases words.len(),
{
    if words.len() == 0 {
        seq![]
    } else {
        pieces(words.drop_last(), n) + chunked(graphemes_of(words.last()), n)
    }
}

/// The lines so far, the line that is being filled, and how much of it is taken.
pub struct Wrap {
    pub lines: Seq<Seq<char>>,
    pub line: Seq<char>,
    pub width: int,
}

/// A line between its margins.
pub open spec fn margined(line: Seq<char>) -> Seq<char> {
    seq![' ', ' ', ' ', ' ', ' '] + line + seq![' ']
}

impl Wrap {
    /// The word fits into the line.
    pub open spec fn fits(self, word: Seq<char>, max: int) -> bool {
        self.width + word.len() + (if self.line.len() == 0 {
            1int
        } else {
            0
        }) <= max
    }

    /// The line, cut where it is too long.
    pub open spec fn ended(self, max: int) -> Seq<char> {
        if self.line.len() > max {
            cut(self.line, max - 1)
        } else {
            self.line
        }
    }

    /// The line can be ended: where it is too long, it can be cut.
    pub open spec fn can_end(self, max: int) -> bool {
        self.line.len() > max ==> boundary(self.line, max - 1)
    }

    /// The word is added to the line, or starts the next one.
    pub open spec fn step(self, word: Seq<char>, max: int) -> Wrap {
        if self.fits(word, max) {
            Wrap {
                lines: self.lines,
                line: if self.line.len() == 0 {
                    word
                } else {
                    self.line.push(' ') + word
                },
                width: self.width + word.len(),
            }
        } else {
            Wrap {
                lines: self.lines.push(margined(self.ended(max))),
                line: word,
                width: word.len() as int,
            }
        }
    }
}

/// What has become of the words, one after the other. The first line has less room.
pub open spec fn wrapped(words: Seq<Seq<char>>, max: int) -> Wrap
    decreases words.len(),
{
    if words.len() == 0 {
        Wrap { lines: seq![], line: seq![], width: 8 }
    } else {
        wrapped(words.drop_last(), max).step(words.last(), max)
    }
}

/// Every line that is ended can be.
pub open spec fn can_wrap(words: Seq<Seq<char>>, max: int) -> bool
    decreases words.len(),
{
    if words.len() == 0 {
        true
    } else {
        let before = wrapped(words.drop_last(), max);
        can_wrap(words.drop_last(), max) && (!before.fits(words.last(), max) ==> before.can_end(
            max,
        ))
    }
}

/// The lines of a text.
pub open spec fn text_lines(words: Seq<Seq<char>>, max: int) -> Seq<Seq<char>> {
    let w = wrapped(words, max);
    if w.line.len() > 0 {
        w.lines.push(margined(w.line))
    } else {
        w.lines
    }
}

/// The words of a message, broken up for lines of `max` characters.
pub open spec fn msg_words(text: Seq<char>, max: nat) -> Seq<Seq<char>> {
    pieces(split_on(text, ' '), max)
}

fn concat(list: &Vec<String>, from: usize, to: usize) -> (r: String)
    requires
        from <= to <= list@.len(),
    ensures
        r@ == join_with(texts(list@).subrange(from as int, to as int), seq![]),
{
    let mut r = String::new();
    let mut i: usize = from;
    let ghost all = texts(list@);
    assert(all.subrange(from as int, from as int) =~= seq![]);
    while i < to
        invariant
            from <= i <= to <= list@.len(),
            all == texts(list@),
            r@ == join_with(all.subrange(from as int, i as int), seq![]),
        decreases to - i,
    {
        r.append(list[i].as_str());
        proof {
            let before = all.subrange(from as int, i as int);
            let after = all.subrange(from as int, i + 1);
            assert(after.drop_last() =~= before);
            assert(after.last() == list@[i as int]@);
            assert(r@ =~= join_with(after, seq![])) by {
                if after.len() == 1 {
                    assert(before =~= seq![]);
                }
            }
        }
        i += 1;
    }
    r
}

/// The clusters put together `n` at a time.
pub fn chunks(clusters: &Vec<String>, n: usize) -> (r: Vec<String>)
    requires
        n > 0,
    ensures
        texts(r@) == chunked(texts(clusters@), n as nat),
{
    let ghost all = texts(clusters@);
    let mut r: Vec<String> = Vec::new();
    let mut i: usize = 0;
    proof {
        assert(all.skip(0) =~= all);
        assert(texts(r@) + chunked(all, n as nat) =~= chunked(all, n as nat));
    }
    while i < clusters.len()
        invariant
            i <= clusters@.len(),
            n > 0,
            all == texts(clusters@),
            texts(r@) + chunked(all.skip(i as int), n as nat) == chunked(all, n as nat),
        decreases clusters@.len() - i,
    {
        let end: usize = if clusters.len() - i <= n {
            clusters.len()
        } else {
            i + n
        };
        let part = concat(clusters, i, end);
        let ghost before = texts(r@);
        r.push(part);
        proof {
            assert(texts(r@) =~= before.push(part@));
            let rest = all.skip(i as int);
            if end == clusters.len() {
                assert(all.subrange(i as int, end as int) =~= rest);
                assert(all.skip(end as int) =~= seq![]);
            } else {
                assert(all.subrange(i as int, end as int) =~= rest.take(n as int));
                assert(all.skip(end as int) =~= rest.skip(n as int));
            }
            assert(texts(r@) + chunked(all.skip(end as int), n as nat) =~= before + chunked(
                rest,
                n as nat,
            ));
        }
        i = end;
    }
    proof {
        assert(all.skip(i as int) =~= seq![]);
        assert(texts(r@) =~= chunked(all, n as nat));
    }
    r
}

/// There is something in every text.
pub open spec fn none_empty(texts: Seq<Seq<char>>) -> bool {
    forall|i: int| 0 <= i < texts.len() ==> (#[trigger] texts[i]).len() > 0
}

proof fn lemma_chunks_hold_something(clusters: Seq<Seq<char>>, n: nat)
    requires
        n > 0,
        none_empty(clusters),
    ensures
        none_empty(chunked(clusters, n)),
    decreases clusters.len(),
{
    if clusters.len() > 0 {
        let head = if clusters.len() <= n {
            clusters
        } else {
            clusters.take(n as int)
        };
        assert(head.last() == clusters[head.len() - 1]);
        assert(join_with(head, seq![]).len() >= head.last().len());
        if clusters.len() > n {
            let tail = clusters.skip(n as int);
            assert forall|i: int| 0 <= i < tail.len() implies (#[trigger] tail[i]).len() > 0 by {
                assert(tail[i] == clusters[n + i]);
            }
            lemma_chunks_hold_something(tail, n);
        }
    }
}

/// The parts of a word. An empty word has none.
fn word_chunks(word: &str, n: usize) -> (r: Vec<String>)
    requires
        n > 0,
    ensures
        texts(r@) == chunked(graphemes_of(word@), n as nat),
        join_with(graphemes_of(word@), seq![]) == word@,
        word@.len() == 0 ==> graphemes_of(word@).len() == 0,
        none_empty(texts(r@)),
        word@.len() > 0 && graphemes_of(word@).len() <= n ==> texts(r@) == seq![word@],
{
    let clusters = graphemes(word);
    proof {
        let all = texts(clusters@);
        assert(all =~= graphemes_of(word@));
        if all.len() > 0 {
            let last = clusters@[all.len() - 1]@;
            assert(last.len() > 0);
            assert(all.last() == last);
            assert(join_with(all, seq![]).len() >= last.len());
        }
        assert forall|i: int| 0 <= i < all.len() implies (#[trigger] all[i]).len() > 0 by {
            assert(clusters@[i]@.len() > 0);
        }
        lemma_chunks_hold_something(all, n as nat);
        if all.len() == 0 {
            assert(word@ =~= seq![]);
        }
    }
    chunks(&clusters, n)
}

/// The characters of the texts but for their blanks.
pub open spec fn inked(texts: Seq<Seq<char>>) -> Seq<char> {
    without(join_with(texts, seq![]), ' ')
}

proof fn lemma_inked_push(texts: Seq<Seq<char>>, text: Seq<char>)
    ensures
        inked(texts.push(text)) == inked(texts) + without(text, ' '),
{
    let all = texts.push(text);
    assert(all.drop_last() =~= texts);
    assert(join_with(all, seq![]) =~= join_with(texts, seq![]) + text);
    lemma_without_add(join_with(texts, seq![]), text, ' ');
}

proof fn lemma_joined_add(a: Seq<Seq<char>>, b: Seq<Seq<char>>)
    ensures
        join_with(a + b, seq![]) == join_with(a, seq![]) + join_with(b, seq![]),
    decreases b.len(),
{
    if b.len() == 0 {
        assert(a + b =~= a);
        assert(join_with(a, seq![]) + join_with(b, seq![]) =~= join_with(a, seq![]));
    } else {
        lemma_joined_add(a, b.drop_last());
        assert((a + b).drop_last() =~= a + b.drop_last());
        assert(join_with(a + b, seq![]) =~= join_with(a + b.drop_last(), seq![]) + b.last());
        assert(join_with(b, seq![]) =~= join_with(b.drop_last(), seq![]) + b.last());
        assert(join_with(a + b, seq![]) =~= join_with(a, seq![]) + join_with(b, seq![]));
    }
}

/// Putting clusters together loses none.
proof fn lemma_chunked(clusters: Seq<Seq<char>>, n: nat)
    requires
        n > 0,
    ensures
        join_with(chunked(clusters, n), seq![]) == join_with(clusters, seq![]),
    decreases clusters.len(),
{
    if clusters.len() > n {
        let head = clusters.take(n as int);
        let tail = clusters.skip(n as int);
        lemma_chunked(tail, n);
        lemma_joined_add(head, tail);
        lemma_joined_add(seq![join_with(head, seq![])], chunked(tail, n));
        assert(head + tail =~= clusters);
    }
}

/// The words of a text hold every character of it but its blanks.
proof fn lemma_split_inked(s: Seq<char>)
    ensures
        inked(split_on(s, ' ')) == without(s, ' '),
        split_on(s, ' ').len() > 0,
    decreases s.len(),
{
    let words = split_on(s, ' ');
    if s.len() == 0 {
        assert(inked(words) =~= without(s, ' '));
    } else {
        let before = split_on(s.drop_last(), ' ');
        lemma_split_inked(s.drop_last());
        if s.last() == ' ' {
            lemma_inked_push(before, seq![]);
            assert(inked(words) =~= without(s, ' '));
        } else {
            let word = before.last();
            assert(before.drop_last().push(word) =~= before);
            lemma_inked_push(before.drop_last(), word);
            lemma_inked_push(before.drop_last(), word.push(s.last()));
            assert(word.push(s.last()).drop_last() =~= word);
            assert(inked(words) =~= without(s, ' '));
        }
    }
}

/// The text holds nothing but blanks.
pub open spec fn all_blank(s: Seq<char>) -> bool {
    forall|i: int| 0 <= i < s.len() ==> #[trigger] s[i] == ' '
}

/// Between blanks alone there are only empty words.
proof fn lemma_split_blank(s: Seq<char>)
    requires
        all_blank(s),
    ensures
        forall|j: int| 0 <= j < split_on(s, ' ').len() ==> (#[trigger] split_on(s, ' ')[j]).len() == 0,
    decreases s.len(),
{
    if s.len() > 0 {
        let before = split_on(s.drop_last(), ' ');
        lemma_split_blank(s.drop_last());
        assert(s.last() == ' ');
        assert(split_on(s, ' ') == before.push(seq![]));
        assert forall|j: int| 0 <= j < split_on(s, ' ').len() implies (#[trigger] split_on(
            s,
            ' ',
        )[j]).len() == 0 by {
            if j < before.len() {
                assert(split_on(s, ' ')[j] == before[j]);
            }
        }
    } else {
        assert(split_on(s, ' ') == seq![Seq::<char>::empty()]);
    }
}

/// No word has to be broken: each has something in it, and no more than `n` clusters.
pub open spec fn unbroken(words: Seq<Seq<char>>, n: nat) -> bool {
    forall|i: int|
        0 <= i < words.len() ==> (#[trigger] words[i]).len() > 0 && graphemes_of(words[i]).len()
            <= n
}

/// The words of a message, broken up for lines of `max` characters. They hold every character of
/// it in its order, but for blanks, and none of them is empty. Where there are only blanks, there
/// are no words.
pub fn words_of(text: &str, max: usize) -> (r: Vec<String>)
    requires
        max > 0,
    ensures
        texts(r@) == msg_words(text@, max as nat),
        inked(texts(r@)) == without(text@, ' '),
        all_blank(text@) ==> r@.len() == 0,
        none_empty(texts(r@)),
        unbroken(split_on(text@, ' '), max as nat) ==> texts(r@) == split_on(text@, ' '),
{
    let words = split(text, ' ');
    let ghost all = texts(words@);
    assert(all == split_on(text@, ' '));
    let mut r: Vec<String> = Vec::new();
    let mut i: usize = 0;
    assert(texts(r@) =~= pieces(all.take(0), max as nat));
    while i < words.len()
        invariant
            i <= words@.len(),
            max > 0,
            all == texts(words@),
            texts(r@) == pieces(all.take(i as int), max as nat),
            inked(texts(r@)) == inked(all.take(i as int)),
            (forall|j: int| 0 <= j < i ==> (#[trigger] all[j]).len() == 0) ==> r@.len() == 0,
            none_empty(texts(r@)),
            unbroken(all, max as nat) ==> texts(r@) == all.take(i as int),
        decreases words@.len() - i,
    {
        let ghost before = texts(r@);
        let mut parts = word_chunks(words[i].as_str(), max);
        let ghost added = texts(parts@);
        r.append(&mut parts);
        proof {
            assert(texts(r@) =~= before + added);
            assert forall|j: int| 0 <= j < texts(r@).len() implies (#[trigger] texts(
                r@,
            )[j]).len() > 0 by {
                if j < before.len() {
                    assert(before[j].len() > 0);
                } else {
                    assert(added[j - before.len()].len() > 0);
                }
            }
            if unbroken(all, max as nat) {
                assert(all[i as int].len() > 0);
                assert(all.take(i as int) + seq![all[i as int]] =~= all.take(i + 1));
            }
            assert(all.take(i + 1).drop_last() =~= all.take(i as int));
            assert(all.take(i + 1) =~= all.take(i as int).push(all[i as int]));
            let chunks = chunked(graphemes_of(all[i as int]), max as nat);
            lemma_chunked(graphemes_of(all[i as int]), max as nat);
            lemma_joined_add(before, chunks);
            lemma_without_add(join_with(before, seq![]), join_with(chunks, seq![]), ' ');
            lemma_inked_push(all.take(i as int), all[i as int]);
        }
        i += 1;
    }
    assert(all.take(all.len() as int) =~= all);
    proof {
        lemma_split_inked(text@);
        if all_blank(text@) {
            lemma_split_blank(text@);
        }
    }
    r
}

fn with_margins(line: &str) -> (r: String)
    ensures
        r@ == margined(line@),
{
    let mut r = "     ".to_owned();
    r.append(line);
    r.push(' ');
    proof {
        reveal_strlit("     ");
        assert(r@ =~= margined(line@));
    }
    r
}

/// The lines of the words, where every line that is too long can be cut.
pub fn wrap(words: &Vec<String>, max: usize) -> (r: Option<Vec<String>>)
    requires
        max > 0,
    ensures
        r is Some <==> can_wrap(texts(words@), max as int),
        r is Some ==> texts(r->0@) == text_lines(texts(words@), max as int),
{
    let ghost all = texts(words@);
    let mut lines: Vec<String> = Vec::new();
    let mut line = String::new();
    let mut width: usize = 8;
    let mut i: usize = 0;
    assert(texts(lines@) =~= seq![]);
    assert(line@ =~= seq![]);
    while i < words.len()
        invariant
            i <= words@.len(),
            max > 0,
            all == texts(words@),
            wrapped(all.take(i as int), max as int) == (Wrap {
                lines: texts(lines@),
                line: line@,
                width: width as int,
            }),
            can_wrap(all.take(i as int), max as int),
        decreases words@.len() - i,
    {
        let word = &words[i];
        let ghost before = wrapped(all.take(i as int), max as int);
        proof {
            assert(all.take(i + 1).drop_last() =~= all.take(i as int));
            assert(all.take(i + 1).last() == word@);
        }
        let word_width = word.as_str().unicode_len();
        let line_width = line.as_str().unicode_len();
        let extra: usize = if line_width == 0 {
            1
        } else {
            0
        };
        if word_width <= max && width <= max - word_width && extra <= max - word_width - width {
            if line_width > 0 {
                line.push(' ');
                line.append(word.as_str());
            } else {
                line = word.clone();
            }
            width = width + word_width;
            assert(line@ =~= before.step(word@, max as int).line);
        } else {
            let ghost so_far = lines@;
            if line_width > max {
                proof {
                    lemma_ends(line@);
                }
                match cut_text(line.as_str(), max - 1) {
                    Some(short) => {
                        let shown = with_margins(short.as_str());
                        lines.push(shown);
                        assert(texts(lines@) =~= texts(so_far).push(shown@));
                    },
                    None => {
                        proof {
                            lemma_cannot_wrap(all, max as int, i + 1);
                        }
                        return None;
                    },
                }
            } else {
                let shown = with_margins(line.as_str());
                lines.push(shown);
                assert(texts(lines@) =~= texts(so_far).push(shown@));
            }
            line = word.clone();
            width = word_width;
        }
        i += 1;
    }
    assert(all.take(all.len() as int) =~= all);
    if line.as_str().unicode_len() > 0 {
        let ghost so_far = lines@;
        let shown = with_margins(line.as_str());
        lines.push(shown);
        assert(texts(lines@) =~= texts(so_far).push(shown@));
    }
    Some(lines)
}

/// Where a beginning of the words cannot be wrapped, they cannot.
proof fn lemma_cannot_wrap(words: Seq<Seq<char>>, max: int, i: int)
    requires
        0 <= i <= words.len(),
        !can_wrap(words.take(i), max),
    ensures
        !can_wrap(words, max),
    decreases words.len() - i,
{
    if i < words.len() {
        assert(words.take(i + 1).drop_last() =~= words.take(i));
        lemma_cannot_wrap(words, max, i + 1);
    } else {
        assert(words.take(i) =~= words);
    }
}

/// Every line but the one that is still being filled is at most `max` characters long between
/// its margins.
pub proof fn law_ended_lines_fit(words: Seq<Seq<char>>, max: int)
    requires
        max > 0,
        can_wrap(words, max),
    ensures
        forall|i: int|
            0 <= i < wrapped(words, max).lines.len() ==> (#[trigger] wrapped(
                words,
                max,
            ).lines[i]).len() <= max + 6,
    decreases words.len(),
{
    if words.len() > 0 {
        law_ended_lines_fit(words.drop_last(), max);
        let before = wrapped(words.drop_last(), max);
        if !before.fits(words.last(), max) && before.line.len() > max {
            let k = char_index(before.line, max - 1);
            assert(at_byte(before.line, max - 1, k));
            lemma_take_bytes(before.line, 0, k);
            assert(byte_len(before.line.take(0)) == 0) by {
                lemma_ends(before.line);
            }
        }
    }
}

/// No line that is ended has to be cut.
pub open spec fn uncut(words: Seq<Seq<char>>, max: int) -> bool
    decreases words.len(),
{
    if words.len() == 0 {
        true
    } else {
        let before = wrapped(words.drop_last(), max);
        uncut(words.drop_last(), max) && (!before.fits(words.last(), max) ==> before.line.len()
            <= max)
    }
}

proof fn lemma_inked_line(line: Seq<char>)
    ensures
        without(margined(line), ' ') == without(line, ' '),
{
    let left = seq![' ', ' ', ' ', ' ', ' '];
    let right = seq![' '];
    assert(without(left, ' ') =~= seq![]) by {
        lemma_all_blank(left);
    }
    assert(without(right, ' ') =~= seq![]) by {
        lemma_all_blank(right);
    }
    lemma_without_add(left, line, ' ');
    lemma_without_add(left + line, right, ' ');
    assert(without(margined(line), ' ') =~= without(line, ' '));
}

proof fn lemma_all_blank(s: Seq<char>)
    requires
        all_blank(s),
    ensures
        without(s, ' ') == Seq::<char>::empty(),
    decreases s.len(),
{
    if s.len() > 0 {
        lemma_all_blank(s.drop_last());
    }
}

proof fn lemma_wrapped_inked(words: Seq<Seq<char>>, max: int)
    requires
        uncut(words, max),
    ensures
        inked(wrapped(words, max).lines) + without(wrapped(words, max).line, ' ') == inked(words),
    decreases words.len(),
{
    let w = wrapped(words, max);
    if words.len() == 0 {
        assert(join_with(words, seq![]) =~= seq![]);
        assert(join_with(w.lines, seq![]) =~= seq![]);
        assert(inked(w.lines) + without(w.line, ' ') =~= inked(words));
    } else {
        let before = wrapped(words.drop_last(), max);
        let word = words.last();
        lemma_wrapped_inked(words.drop_last(), max);
        assert(words =~= words.drop_last().push(word));
        lemma_inked_push(words.drop_last(), word);
        if before.fits(word, max) {
            if before.line.len() == 0 {
                assert(without(before.line, ' ') =~= seq![]);
                assert(inked(w.lines) + without(w.line, ' ') =~= inked(words));
            } else {
                lemma_without_add(before.line.push(' '), word, ' ');
                assert(before.line.push(' ').drop_last() =~= before.line);
                assert(inked(w.lines) + without(w.line, ' ') =~= inked(words));
            }
        } else {
            lemma_inked_push(before.lines, margined(before.line));
            lemma_inked_line(before.line);
            assert(inked(w.lines) + without(w.line, ' ') =~= inked(words));
        }
    }
}

/// Where no line has to be cut, the lines hold every character of the words in their order, but
/// for blanks.
pub proof fn law_uncut_text_is_kept(words: Seq<Seq<char>>, max: int)
    requires
        uncut(words, max),
    ensures
        inked(text_lines(words, max)) == inked(words),
{
    let w = wrapped(words, max);
    lemma_wrapped_inked(words, max);
    if w.line.len() > 0 {
        lemma_inked_push(w.lines, margined(w.line));
        lemma_inked_line(w.line);
    } else {
        assert(without(w.line, ' ') =~= seq![]);
        assert(inked(w.lines) + without(w.line, ' ') =~= inked(w.lines));
    }
}

} // verus!

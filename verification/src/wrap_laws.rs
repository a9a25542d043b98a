//! What holds of a text that is broken into lines.

use vstd::prelude::*;
use vstd::string::*;

use crate::text::boundary;
use crate::text_laws::{is_free_of, law_joined_texts, law_pieces_join_to_the_text};
use crate::words::{join_with, split_on};
use crate::wrap::{can_wrap, cut, msg_words, text_lines, wrapped};

verus! {

/// How many characters the words have together.
pub open spec fn total_len(words: Seq<Seq<char>>) -> nat
    decreases words.len(),
{
    if words.len() == 0 {
        0
    } else {
        total_len(words.drop_last()) + words.last().len()
    }
}

/// A line between five blanks and one.
pub open spec fn between_margins(line: Seq<char>) -> Seq<char> {
    seq![' ', ' ', ' ', ' ', ' '] + line + seq![' ']
}

/// The words from one break to the next.
pub open spec fn run_of(words: Seq<Seq<char>>, breaks: Seq<int>, k: int) -> Seq<Seq<char>> {
    words.subrange(breaks[k], breaks[k + 1])
}

/// The breaks go through the words from the first to the last.
pub open spec fn are_breaks(words: Seq<Seq<char>>, breaks: Seq<int>) -> bool {
    &&& breaks.len() > 0
    &&& breaks[0] == 0
    &&& breaks.last() <= words.len()
    &&& forall|i: int, j: int| 0 <= i <= j < breaks.len() ==> #[trigger] breaks[i] <= #[trigger] breaks[j]
    &&& forall|i: int, j: int|
        1 <= i < j < breaks.len() ==> #[trigger] breaks[i] < #[trigger] breaks[j]
}

/// How much room a line has lost before its first word.
pub open spec fn room_lost(k: int) -> int {
    if k == 0 {
        8
    } else {
        0
    }
}

/// The words have room in the line `k`: together they are not longer than the line. A word by
/// itself has room in every line but the first.
pub open spec fn has_room(run: Seq<Seq<char>>, k: int, max: int) -> bool {
    if k == 0 {
        run.len() > 0 ==> room_lost(k) + total_len(run) <= max && room_lost(k) + 1 + run[0].len()
            <= max
    } else {
        run.len() > 0 && (run.len() > 1 ==> total_len(run) <= max)
    }
}

/// The next word has no room in the line `k` any more.
pub open spec fn is_full(run: Seq<Seq<char>>, k: int, word: Seq<char>, max: int) -> bool {
    room_lost(k) + total_len(run) + word.len() + (if run.len() == 0 {
        1int
    } else {
        0
    }) > max
}

/// The line holds the words with one blank between two of them. One that is longer than it may be
/// is cut, but for the last one.
pub open spec fn holds_run(line: Seq<char>, run: Seq<Seq<char>>, last: bool, max: int) -> bool {
    let joined = join_with(run, seq![' ']);
    line == between_margins(
        if joined.len() <= max || last {
            joined
        } else {
            cut(joined, max - 1)
        },
    )
}

/// The lines are those that a text of these words is broken into at these breaks.
pub open spec fn breaks_into(
    words: Seq<Seq<char>>,
    breaks: Seq<int>,
    lines: Seq<Seq<char>>,
    max: int,
) -> bool {
    &&& are_breaks(words, breaks)
    &&& breaks.last() == words.len()
    &&& breaks.len() == lines.len() + 1
    &&& forall|k: int|
        0 <= k < lines.len() ==> {
            &&& holds_run(#[trigger] lines[k], run_of(words, breaks, k), k == lines.len() - 1, max)
            &&& has_room(run_of(words, breaks, k), k, max)
            &&& k < lines.len() - 1 ==> is_full(
                run_of(words, breaks, k),
                k,
                words[breaks[k + 1]],
                max,
            )
        }
}

/// Every line but the last one that has to be cut can be cut between two characters.
pub open spec fn can_be_cut(words: Seq<Seq<char>>, breaks: Seq<int>, ended: int, max: int) -> bool {
    forall|k: int|
        0 <= k < ended ==> {
            let joined = join_with(#[trigger] run_of(words, breaks, k), seq![' ']);
            joined.len() > max ==> boundary(joined, max - 1)
        }
}

/// The line `k` is ended: it holds its words, which have room in it, and the next one has not.
spec fn is_ended(
    line: Seq<char>,
    words: Seq<Seq<char>>,
    breaks: Seq<int>,
    k: int,
    max: int,
) -> bool {
    &&& holds_run(line, run_of(words, breaks, k), false, max)
    &&& has_room(run_of(words, breaks, k), k, max)
    &&& is_full(run_of(words, breaks, k), k, words[breaks[k + 1]], max)
}

/// What holds while the words are gone through: the lines that are ended, and the one that is being
/// filled.
spec fn fills(words: Seq<Seq<char>>, breaks: Seq<int>, max: int) -> bool {
    let w = wrapped(words, max);
    let rest = words.skip(breaks.last());
    &&& are_breaks(words, breaks)
    &&& breaks.len() == w.lines.len() + 1
    &&& forall|k: int|
        0 <= k < w.lines.len() ==> is_ended(#[trigger] w.lines[k], words, breaks, k, max)
    &&& w.line == join_with(rest, seq![' '])
    &&& w.width == room_lost(w.lines.len() as int) + total_len(rest)
    &&& has_room(rest, w.lines.len() as int, max)
    &&& breaks.len() > 1 ==> breaks.last() < words.len()
    &&& rest.len() > 0 ==> w.line.len() > 0
    &&& can_wrap(words, max) <==> can_be_cut(words, breaks, breaks.len() - 1, max)
}

#[verifier::spinoff_prover]
proof fn lemma_fills(words: Seq<Seq<char>>, max: int) -> (breaks: Seq<int>)
    requires
        forall|i: int| 0 <= i < words.len() ==> (#[trigger] words[i]).len() > 0,
    ensures
        fills(words, breaks, max),
    decreases words.len(),
{
    if words.len() == 0 {
        assert(words.skip(0) =~= Seq::<Seq<char>>::empty());
        assert(join_with(words.skip(0), seq![' ']) =~= Seq::<char>::empty());
        let breaks = seq![0int];
        assert(can_be_cut(words, breaks, 0, max));
        assert(fills(words, breaks, max));
        breaks
    } else {
        let before = words.drop_last();
        let word = words.last();
        assert forall|i: int| 0 <= i < before.len() implies (#[trigger] before[i]).len() > 0 by {
            assert(before[i] == words[i]);
        }
        let b = lemma_fills(before, max);
        let w = wrapped(before, max);
        let rest = before.skip(b.last());
        let n = w.lines.len() as int;
        assert(word == words[words.len() - 1]);
        law_joined_texts(rest, word, seq![' ']);
        assert forall|k: int| 0 <= k < w.lines.len() implies run_of(words, b, k) == #[trigger] run_of(
            before,
            b,
            k,
        ) && words[b[k + 1]] == before[b[k + 1]] by {
            assert(b[k + 1] <= b.last());
            assert(b[k] <= b[k + 1]);
            assert(run_of(words, b, k) =~= run_of(before, b, k));
        }
        if w.fits(word, max) {
            assert(words.skip(b.last()) =~= rest.push(word));
            assert(rest.push(word).drop_last() =~= rest);
            if rest.len() == 0 {
                assert(rest =~= Seq::<Seq<char>>::empty());
                assert(rest.push(word) =~= seq![word]);
                assert(total_len(rest) == 0);
            } else {
                assert(rest.push(word)[0] == rest[0]);
                assert(w.line.push(' ') + word =~= w.line + seq![' '] + word);
            }
            assert forall|k: int| 0 <= k < w.lines.len() implies is_ended(
                #[trigger] w.lines[k],
                words,
                b,
                k,
                max,
            ) by {
                assert(is_ended(w.lines[k], before, b, k, max));
                assert(run_of(words, b, k) == run_of(before, b, k));
                assert(words[b[k + 1]] == before[b[k + 1]]);
            }
            assert(can_be_cut(words, b, n, max) <==> can_be_cut(before, b, n, max)) by {
                assert forall|k: int| 0 <= k < n implies run_of(words, b, k) == run_of(
                    before,
                    b,
                    k,
                ) by {
                    let same = run_of(before, b, k);
                }
            }
            assert(fills(words, b, max));
            b
        } else {
            let breaks = b.push(before.len() as int);
            let next = wrapped(words, max);
            assert(words.skip(breaks.last()) =~= seq![word]);
            assert(seq![word].drop_last() =~= Seq::<Seq<char>>::empty());
            reveal_with_fuel(total_len, 2);
            assert(seq![word].last() == word);
            assert(total_len(seq![word]) == word.len());
            assert(run_of(words, breaks, n) =~= rest);
            assert(words[breaks[n + 1]] == word);
            if rest.len() == 0 {
                assert(rest =~= Seq::<Seq<char>>::empty());
            }
            assert(is_full(rest, n, word, max));
            assert forall|k: int| 0 <= k < next.lines.len() implies is_ended(
                #[trigger] next.lines[k],
                words,
                breaks,
                k,
                max,
            ) by {
                if k < n {
                    assert(next.lines[k] == w.lines[k]);
                    assert(is_ended(w.lines[k], before, b, k, max));
                    assert(breaks[k] == b[k] && breaks[k + 1] == b[k + 1]);
                    assert(run_of(words, breaks, k) == run_of(words, b, k));
                    assert(run_of(words, b, k) == run_of(before, b, k));
                    assert(words[b[k + 1]] == before[b[k + 1]]);
                } else {
                    assert(next.lines[k] == crate::wrap::margined(w.ended(max)));
                    assert(run_of(words, breaks, k) == rest);
                    assert(holds_run(next.lines[k], rest, false, max));
                }
            }
            assert(can_be_cut(words, breaks, n + 1, max) <==> can_be_cut(before, b, n, max)
                && w.can_end(max)) by {
                assert forall|k: int| 0 <= k < n implies run_of(words, breaks, k) == run_of(
                    before,
                    b,
                    k,
                ) by {
                    let same = run_of(before, b, k);
                    assert(run_of(words, breaks, k) == run_of(words, b, k));
                }
                if can_be_cut(words, breaks, n + 1, max) {
                    assert(run_of(words, breaks, n) == rest);
                    assert forall|k: int| 0 <= k < n implies ({
                        let joined = join_with(#[trigger] run_of(before, b, k), seq![' ']);
                        joined.len() > max ==> boundary(joined, max - 1)
                    }) by {
                        let same = run_of(words, breaks, k);
                    }
                }
            }
            assert(fills(words, breaks, max));
            breaks
        }
    }
}

/// A text is broken into lines between two of its words. Each line holds the words from one break
/// to the next with one blank between two of them, as many as it has room for, and starts with the
/// first word that had no room in the line before. It can be done where every line that has to be cut
/// can be.
#[verifier::spinoff_prover]
pub proof fn law_lines_are_runs_of_words(words: Seq<Seq<char>>, max: int)
    requires
        forall|i: int| 0 <= i < words.len() ==> (#[trigger] words[i]).len() > 0,
    ensures
        exists|breaks: Seq<int>|
            {
                &&& #[trigger] breaks_into(words, breaks, text_lines(words, max), max)
                &&& can_wrap(words, max) <==> can_be_cut(
                    words,
                    breaks,
                    text_lines(words, max).len() - 1,
                    max,
                )
            },
{
    let b = lemma_fills(words, max);
    let w = wrapped(words, max);
    let lines = text_lines(words, max);
    let rest = words.skip(b.last());
    if w.line.len() > 0 {
        assert(rest.len() > 0) by {
            if rest.len() == 0 {
                assert(rest =~= Seq::<Seq<char>>::empty());
                assert(join_with(rest, seq![' ']) =~= Seq::<char>::empty());
            }
        }
        let breaks = b.push(words.len() as int);
        let n = w.lines.len() as int;
        assert(run_of(words, breaks, n) =~= rest);
        assert forall|k: int| 0 <= k < lines.len() implies {
            &&& holds_run(#[trigger] lines[k], run_of(words, breaks, k), k == lines.len() - 1, max)
            &&& has_room(run_of(words, breaks, k), k, max)
            &&& k < lines.len() - 1 ==> is_full(
                run_of(words, breaks, k),
                k,
                words[breaks[k + 1]],
                max,
            )
        } by {
            if k < n {
                assert(lines[k] == w.lines[k]);
                assert(breaks[k] == b[k] && breaks[k + 1] == b[k + 1]);
                assert(run_of(words, breaks, k) == run_of(words, b, k));
                assert(k < lines.len() - 1);
                assert(is_ended(w.lines[k], words, b, k, max));
            } else {
                assert(k == n && n == lines.len() - 1);
                assert(lines[k] == crate::wrap::margined(w.line));
                assert(has_room(rest, n, max));
                assert(holds_run(lines[k], rest, true, max));
            }
        }
        assert(are_breaks(words, breaks)) by {
            assert forall|i: int, j: int| 0 <= i <= j < breaks.len() implies #[trigger] breaks[i]
                <= #[trigger] breaks[j] by {
                if i < b.len() {
                    assert(b[i] <= b.last());
                }
            }
            assert forall|i: int, j: int| 1 <= i < j < breaks.len() implies #[trigger] breaks[i]
                < #[trigger] breaks[j] by {
                if j == b.len() {
                    assert(b[i] <= b.last());
                }
            }
        }
        assert(breaks.last() == words.len());
        assert(breaks.len() == lines.len() + 1);
        assert(breaks_into(words, breaks, lines, max));
        assert(can_be_cut(words, breaks, n, max) <==> can_be_cut(words, b, n, max)) by {
            assert forall|k: int| 0 <= k < n implies run_of(words, breaks, k) == run_of(
                words,
                b,
                k,
            ) by {}
            if can_be_cut(words, breaks, n, max) {
                assert forall|k: int| 0 <= k < n implies ({
                    let joined = join_with(#[trigger] run_of(words, b, k), seq![' ']);
                    joined.len() > max ==> boundary(joined, max - 1)
                }) by {
                    let same = run_of(words, breaks, k);
                }
            }
        }
    } else {
        assert(rest.len() == 0);
        assert(b.len() == 1);
        assert(breaks_into(words, b, lines, max));
    }
}

/// The line without its margins.
pub open spec fn bared(line: Seq<char>) -> Seq<char> {
    line.subrange(5, line.len() - 1)
}

/// What the lines hold between their margins, but for lines that hold nothing.
pub open spec fn bared_lines(lines: Seq<Seq<char>>) -> Seq<Seq<char>>
    decreases lines.len(),
{
    if lines.len() == 0 {
        seq![]
    } else {
        let before = bared_lines(lines.drop_last());
        if bared(lines.last()).len() == 0 {
            before
        } else {
            before.push(bared(lines.last()))
        }
    }
}

proof fn lemma_joined_runs(a: Seq<Seq<char>>, b: Seq<Seq<char>>, sep: Seq<char>)
    requires
        a.len() > 0,
        b.len() > 0,
    ensures
        join_with(a + b, sep) == join_with(a, sep) + sep + join_with(b, sep),
    decreases b.len(),
{
    assert((a + b).drop_last() =~= a + b.drop_last());
    if b.len() == 1 {
        assert(a + b.drop_last() =~= a);
    } else {
        lemma_joined_runs(a, b.drop_last(), sep);
        assert(join_with(a + b, sep) =~= join_with(a, sep) + sep + join_with(b, sep));
    }
}

proof fn lemma_joined_has(run: Seq<Seq<char>>, i: int)
    requires
        0 <= i < run.len(),
        run[i].len() > 0,
    ensures
        join_with(run, seq![' ']).len() > 0,
    decreases run.len(),
{
    if run.len() > 1 && i < run.len() - 1 {
        assert(run.drop_last()[i] == run[i]);
        lemma_joined_has(run.drop_last(), i);
    }
}

proof fn lemma_bared_runs(
    words: Seq<Seq<char>>,
    breaks: Seq<int>,
    lines: Seq<Seq<char>>,
    max: int,
    n: int,
)
    requires
        forall|i: int| 0 <= i < words.len() ==> (#[trigger] words[i]).len() > 0,
        breaks_into(words, breaks, lines, max),
        0 <= n <= lines.len(),
        forall|k: int|
            0 <= k < n ==> #[trigger] lines[k] == between_margins(
                join_with(run_of(words, breaks, k), seq![' ']),
            ),
    ensures
        join_with(bared_lines(lines.take(n)), seq![' ']) == join_with(
            words.take(breaks[n]),
            seq![' '],
        ),
        bared_lines(lines.take(n)).len() > 0 <==> breaks[n] > 0,
    decreases n,
{
    if n == 0 {
        assert(lines.take(0) =~= Seq::<Seq<char>>::empty());
        assert(words.take(0) =~= Seq::<Seq<char>>::empty());
    } else {
        lemma_bared_runs(words, breaks, lines, max, n - 1);
        let run = run_of(words, breaks, n - 1);
        let joined = join_with(run, seq![' ']);
        let line = lines[n - 1];
        assert(breaks[n - 1] <= breaks[n] <= breaks.last());
        assert(lines.take(n).drop_last() =~= lines.take(n - 1));
        assert(lines.take(n).last() == line);
        assert(bared(line) =~= joined);
        assert(words.take(breaks[n]) =~= words.take(breaks[n - 1]) + run);
        if run.len() == 0 {
            assert(run =~= Seq::<Seq<char>>::empty());
            assert(words.take(breaks[n]) =~= words.take(breaks[n - 1]));
            assert(joined =~= Seq::<char>::empty());
        } else {
            assert(run[0] == words[breaks[n - 1]]);
            lemma_joined_has(run, 0);
            let before = bared_lines(lines.take(n - 1));
            law_joined_texts(before, joined, seq![' ']);
            if breaks[n - 1] > 0 {
                lemma_joined_runs(words.take(breaks[n - 1]), run, seq![' ']);
            } else {
                assert(before =~= Seq::<Seq<char>>::empty());
                assert(before.push(joined) =~= seq![joined]);
                assert(words.take(breaks[n]) =~= run);
            }
        }
    }
}

/// Where no line is cut, the words can be read off the lines: what stands between the margins, line
/// for line with one blank between two of them, is the words with one blank between two of them.
pub proof fn law_lines_read_as_the_words(words: Seq<Seq<char>>, max: int)
    requires
        forall|i: int| 0 <= i < words.len() ==> (#[trigger] words[i]).len() > 0,
        forall|k: int|
            0 <= k < text_lines(words, max).len() ==> is_free_of(
                #[trigger] text_lines(words, max)[k],
                '…',
            ),
    ensures
        join_with(bared_lines(text_lines(words, max)), seq![' ']) == join_with(words, seq![' ']),
{
    let lines = text_lines(words, max);
    law_lines_are_runs_of_words(words, max);
    let breaks = choose|breaks: Seq<int>| breaks_into(words, breaks, lines, max);
    assert forall|k: int| 0 <= k < lines.len() implies #[trigger] lines[k] == between_margins(
        join_with(run_of(words, breaks, k), seq![' ']),
    ) by {
        let joined = join_with(run_of(words, breaks, k), seq![' ']);
        assert(holds_run(lines[k], run_of(words, breaks, k), k == lines.len() - 1, max));
        if joined.len() > max && k < lines.len() - 1 {
            let short = cut(joined, max - 1);
            assert(short.last() == '…');
            assert(lines[k][5 + short.len() - 1] == '…');
        }
    }
    lemma_bared_runs(words, breaks, lines, max, lines.len() as int);
    assert(lines.take(lines.len() as int) =~= lines);
    assert(words.take(words.len() as int) =~= words);
}

/// A text whose words are apart by one blank each can be read off its lines, where no word has to be
/// broken and no line is cut.
pub proof fn law_lines_read_as_the_text(text: Seq<char>, max: nat)
    requires
        msg_words(text, max) == split_on(text, ' '),
        forall|i: int| 0 <= i < split_on(text, ' ').len() ==> (#[trigger] split_on(text, ' ')[i]).len() > 0,
        forall|k: int|
            0 <= k < text_lines(msg_words(text, max), max as int).len() ==> is_free_of(
                #[trigger] text_lines(msg_words(text, max), max as int)[k],
                '…',
            ),
    ensures
        join_with(bared_lines(text_lines(msg_words(text, max), max as int)), seq![' ']) == text,
{
    law_lines_read_as_the_words(split_on(text, ' '), max as int);
    law_pieces_join_to_the_text(text, ' ');
}

} // verus!

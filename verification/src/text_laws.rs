//! What holds of texts that are taken apart and put together.

use vstd::prelude::*;
use vstd::string::*;

use crate::text::{at_byte, boundary, byte_len, lemma_char_index};
use crate::words::{
    count_of, decimal, digits_value, is_trimmed, join_with, lemma_decimal, lemma_trimmed,
    lemma_without_add, lines_of, padded, parsed_u64, split_on, trimmed, without,
};
use crate::wrap::cut;

verus! {

/// The character does not stand in the text.
pub open spec fn is_free_of(s: Seq<char>, x: char) -> bool {
    forall|i: int| 0 <= i < s.len() ==> #[trigger] s[i] != x
}

/// A text without the separator is one piece.
pub proof fn law_unsplit_text_is_one_piece(s: Seq<char>, sep: char)
    requires
        is_free_of(s, sep),
    ensures
        split_on(s, sep) == seq![s],
    decreases s.len(),
{
    if s.len() > 0 {
        assert(s.last() != sep);
        law_unsplit_text_is_one_piece(s.drop_last(), sep);
        assert(seq![s.drop_last()].drop_last() =~= Seq::<Seq<char>>::empty());
        assert(s.drop_last().push(s.last()) =~= s);
        assert(split_on(s, sep) =~= seq![s]);
    } else {
        assert(s =~= seq![]);
        assert(split_on(s, sep) =~= seq![s]);
    }
}

/// A text falls into the pieces before a separator and those behind it.
pub proof fn law_pieces_on_both_sides(a: Seq<char>, b: Seq<char>, sep: char)
    ensures
        split_on(a + seq![sep] + b, sep) == split_on(a, sep) + split_on(b, sep),
        split_on(b, sep).len() > 0,
    decreases b.len(),
{
    let s = a + seq![sep] + b;
    if b.len() == 0 {
        assert(s.drop_last() =~= a);
        assert(b =~= seq![]);
        assert(split_on(s, sep) =~= split_on(a, sep) + split_on(b, sep));
    } else {
        assert(s.last() == b.last());
        assert(s.drop_last() =~= a + seq![sep] + b.drop_last());
        law_pieces_on_both_sides(a, b.drop_last(), sep);
        assert(split_on(s, sep) =~= split_on(a, sep) + split_on(b, sep));
    }
}

/// The pieces of a text hold no separator, and with separators between them they are the text.
pub proof fn law_pieces_join_to_the_text(s: Seq<char>, sep: char)
    ensures
        split_on(s, sep).len() > 0,
        forall|i: int| 0 <= i < split_on(s, sep).len() ==> is_free_of(#[trigger] split_on(s, sep)[i], sep),
        join_with(split_on(s, sep), seq![sep]) == s,
    decreases s.len(),
{
    let all = split_on(s, sep);
    if s.len() == 0 {
        assert(all =~= seq![seq![]]);
        assert(join_with(all, seq![sep]) =~= s);
    } else {
        let before = split_on(s.drop_last(), sep);
        law_pieces_join_to_the_text(s.drop_last(), sep);
        assert forall|i: int| 0 <= i < all.len() implies is_free_of(#[trigger] all[i], sep) by {
            if i < before.len() - 1 {
                assert(all[i] == before[i]);
            } else if i == before.len() - 1 {
                assert(is_free_of(before[i], sep));
            }
        }
        if s.last() == sep {
            assert(all.drop_last() =~= before);
            assert(join_with(all, seq![sep]) =~= s);
        } else {
            assert(all.drop_last() =~= before.drop_last());
            assert(all.last() == before.last().push(s.last()));
            if all.len() == 1 {
                assert(before[0] == s.drop_last());
                assert(all[0] =~= s);
            } else {
                let head = join_with(before.drop_last(), seq![sep]) + seq![sep];
                assert(head + before.last() == s.drop_last());
                assert(join_with(all, seq![sep]) == head + all.last());
                assert(head + all.last() =~= (head + before.last()).push(s.last()));
                assert(s.drop_last().push(s.last()) =~= s);
            }
        }
    }
}

/// Texts are joined in their order, with the separator between two of them and nowhere else.
pub proof fn law_joined_texts(list: Seq<Seq<char>>, text: Seq<char>, sep: Seq<char>)
    ensures
        join_with(seq![], sep) == Seq::<char>::empty(),
        join_with(seq![text], sep) == text,
        list.len() > 0 ==> join_with(list.push(text), sep) == join_with(list, sep) + sep + text,
{
    assert(list.push(text).drop_last() =~= list);
    assert(join_with(Seq::<Seq<char>>::empty(), sep) =~= Seq::<char>::empty());
}

/// A padded text starts with the text, has blanks behind it, and is as wide as it has to be.
pub proof fn law_padding_is_behind_the_text(s: Seq<char>, width: nat)
    ensures
        padded(s, width as int).len() == if s.len() < width {
            width
        } else {
            s.len()
        },
        padded(s, width as int).take(s.len() as int) == s,
        is_blank(padded(s, width as int).skip(s.len() as int)),
{
    assert(padded(s, width as int).take(s.len() as int) =~= s);
}

/// There are only blanks in the text.
pub open spec fn is_blank(s: Seq<char>) -> bool {
    forall|i: int| 0 <= i < s.len() ==> #[trigger] s[i] == ' '
}

/// The digit of a number below ten.
pub open spec fn digit_char(n: nat) -> char {
    seq!['0', '1', '2', '3', '4', '5', '6', '7', '8', '9'][n as int]
}

/// The last digit of a number is what is left of it when it is divided by ten; the digits before
/// it are those of the rest. No number but zero starts with a zero.
pub proof fn law_decimal_digits(n: nat)
    ensures
        decimal(n).last() == digit_char(n % 10),
        n < 10 ==> decimal(n).len() == 1,
        n >= 10 ==> decimal(n).drop_last() == decimal(n / 10),
        decimal(n).len() > 0,
        n > 0 ==> decimal(n)[0] != '0',
    decreases n,
{
    lemma_decimal(n);
    if n >= 10 {
        law_decimal_digits(n / 10);
        assert(decimal(n).drop_last() =~= decimal(n / 10));
        assert(decimal(n)[0] == decimal(n / 10)[0]);
    }
}

/// Another digit makes a number ten times as large and adds the digit to it, where that can be
/// held. A text with anything but digits in it is no number.
pub proof fn law_numbers_are_read_by_digits(s: Seq<char>, n: u64, d: nat, junk: char)
    requires
        d < 10,
        parsed_u64(s) == Some(n),
        !('0' <= junk <= '9'),
    ensures
        parsed_u64(seq![digit_char(d)]) == Some(d as u64),
        parsed_u64(s.push(digit_char(d))) == if n * 10 + d <= u64::MAX {
            Some((n * 10 + d) as u64)
        } else {
            None
        },
        parsed_u64(s.push(junk)) is None,
        parsed_u64(seq![]) is None,
{
    let one = seq![digit_char(d)];
    assert(one.drop_last() =~= Seq::<char>::empty());
    assert(digits_value(Seq::<char>::empty()) == 0);
    assert(digits_value(one) == d);
    let more = s.push(digit_char(d));
    let less = s.push(junk);
    if s[0] == '+' {
        let digits = s.drop_first();
        assert(more.drop_first() =~= digits.push(digit_char(d)));
        assert(digits.push(digit_char(d)).drop_last() =~= digits);
        assert(less.drop_first() =~= digits.push(junk));
        assert(less.drop_first()[digits.len() as int] == junk);
    } else {
        assert(more.drop_last() =~= s);
        assert(less[s.len() as int] == junk);
    }
}

/// Taking a character out of a text leaves every other one in its order.
pub proof fn law_taken_out(a: Seq<char>, b: Seq<char>, c: char, x: char)
    ensures
        without(seq![c], x) == if c == x {
            seq![]
        } else {
            seq![c]
        },
        without(a + b, x) == without(a, x) + without(b, x),
        without(seq![], x) == Seq::<char>::empty(),
{
    assert(seq![c].drop_last() =~= Seq::<char>::empty());
    assert(without(Seq::<char>::empty(), x) =~= Seq::<char>::empty());
    assert(without(seq![c], x) =~= if c == x {
        seq![]
    } else {
        seq![c]
    });
    lemma_without_add(a, b, x);
}

/// A character is counted as often as it stands in a text.
pub proof fn law_counted(s: Seq<char>, c: char, x: char)
    ensures
        count_of(s.push(c), x) == count_of(s, x) + if c == x {
            1nat
        } else {
            0nat
        },
        count_of(seq![], x) == 0,
{
    assert(s.push(c).drop_last() =~= s);
}

/// A text starts with the line before its first line feed, without a carriage return at its end,
/// and goes on with the lines behind it. A text without a line feed is one line, an empty one none.
pub proof fn law_lines_end_at_line_feeds(a: Seq<char>, b: Seq<char>)
    requires
        is_free_of(a, '\n'),
    ensures
        lines_of(a + seq!['\n'] + b) == seq![
            if a.len() > 0 && a.last() == '\r' {
                a.drop_last()
            } else {
                a
            },
        ] + lines_of(b),
        a.len() > 0 ==> lines_of(a) == seq![a],
        lines_of(seq![]) == Seq::<Seq<char>>::empty(),
{
    law_unsplit_text_is_one_piece(a, '\n');
    law_unsplit_text_is_one_piece(Seq::<char>::empty(), '\n');
    law_pieces_on_both_sides(a, b, '\n');
    let whole = split_on(a + seq!['\n'] + b, '\n');
    assert(whole.drop_last() =~= seq![a] + split_on(b, '\n').drop_last());
    assert(lines_of(a) =~= if a.len() > 0 {
        seq![a]
    } else {
        seq![]
    });
    assert(lines_of(a + seq!['\n'] + b) =~= seq![
        if a.len() > 0 && a.last() == '\r' {
            a.drop_last()
        } else {
            a
        },
    ] + lines_of(b));
}

/// Blanks and line ends around a text are taken off, and nothing of the text.
pub proof fn law_only_the_ends_are_trimmed(left: Seq<char>, s: Seq<char>, right: Seq<char>)
    requires
        forall|i: int|
            0 <= i < left.len() ==> #[trigger] left[i] == ' ' || left[i] == '\t' || left[i] == '\n'
                || left[i] == '\r',
        forall|i: int|
            0 <= i < right.len() ==> #[trigger] right[i] == ' ' || right[i] == '\t' || right[i]
                == '\n' || right[i] == '\r',
        s.len() > 0 ==> '!' <= s[0] <= '~' && '!' <= s.last() <= '~',
    ensures
        trimmed(left + s + right) == s,
{
    let all = left + s + right;
    let from = left.len() as int;
    let to = left.len() + s.len() as int;
    assert(all.subrange(from, to) =~= s);
    assert forall|i: int| to <= i < all.len() implies crate::words::is_white(#[trigger] all[i]) by {
        assert(all[i] == right[i - to]);
    }
    assert forall|i: int| 0 <= i < from implies crate::words::is_white(#[trigger] all[i]) by {
        assert(all[i] == left[i]);
    }
    assert(is_trimmed(all, s, from, to));
    lemma_trimmed(all, s, from, to);
}

/// What is left of a text that is cut after some of its bytes, and the ellipsis behind it.
pub proof fn law_cut_keeps_the_beginning(a: Seq<char>, b: Seq<char>)
    ensures
        boundary(a + b, byte_len(a) as int),
        cut(a + b, byte_len(a) as int) == a.push('…'),
{
    assert((a + b).take(a.len() as int) =~= a);
    assert(at_byte(a + b, byte_len(a) as int, a.len() as int));
    lemma_char_index(a + b, byte_len(a) as int, a.len() as int);
}

} // verus!

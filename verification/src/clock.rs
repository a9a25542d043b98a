//! Times as the user reads them.

use vstd::prelude::*;
use vstd::string::*;

use crate::outside::{blank_free, is_stamp, local_time, reads_in_zone, showable_time};
use crate::text::chars_of;
use crate::words::split_on;

verus! {

/// The place of the last blank, or -1 where there is none.
pub open spec fn last_blank(s: Seq<char>) -> int
    decreases s.len(),
{
    if s.len() == 0 {
        -1
    } else if s.last() == ' ' {
        s.len() - 1
    } else {
        last_blank(s.drop_last())
    }
}

/// What stands before the last blank, or all where there is none.
pub open spec fn before_last_blank(s: Seq<char>) -> Seq<char> {
    if last_blank(s) >= 0 {
        s.take(last_blank(s))
    } else {
        s
    }
}

/// A date and a clock time with a blank between them.
pub open spec fn is_day_time(text: Seq<char>, date: Seq<char>, clock: Seq<char>) -> bool {
    &&& text == date + seq![' '] + clock
    &&& blank_free(date)
    &&& blank_free(clock)
}

/// The text is a date and a clock time.
pub open spec fn shows_time(text: Seq<char>) -> bool {
    exists|date: Seq<char>, clock: Seq<char>| is_day_time(text, date, clock)
}

/// The text is the date and the clock time of `timestamp` in some time zone.
pub open spec fn time_reads(timestamp: u64, text: Seq<char>) -> bool {
    &&& shows_time(text)
    &&& exists|full: Seq<char>| #[trigger]
        reads_in_zone(timestamp, full) && text == before_last_blank(full)
}

/// What stands before the last blank.
pub fn strip_zone(text: &str) -> (r: String)
    ensures
        r@ == before_last_blank(text@),
{
    let chars = chars_of(text);
    let mut i: usize = chars.len();
    assert(text@.take(i as int) =~= text@);
    while i > 0
        invariant
            i <= chars@.len(),
            chars@ == text@,
            last_blank(text@) == last_blank(text@.take(i as int)),
        decreases i,
    {
        assert(text@.take(i as int).drop_last() =~= text@.take(i - 1));
        if chars[i - 1] == ' ' {
            return text.substring_char(0, i - 1).to_owned();
        }
        i -= 1;
    }
    text.to_owned()
}

/// The last blank is the one before a text without any.
pub proof fn lemma_blank_free_tail(head: Seq<char>, tail: Seq<char>)
    requires
        blank_free(tail),
    ensures
        last_blank(head + seq![' '] + tail) == head.len(),
    decreases tail.len(),
{
    let s = head + seq![' '] + tail;
    if tail.len() == 0 {
        assert(s.last() == ' ');
    } else {
        assert(s.last() == tail.last());
        assert(s.drop_last() =~= head + seq![' '] + tail.drop_last());
        lemma_blank_free_tail(head, tail.drop_last());
    }
}

/// A text without the separator is one piece.
proof fn lemma_one_piece(s: Seq<char>)
    requires
        blank_free(s),
    ensures
        split_on(s, ' ') == seq![s],
    decreases s.len(),
{
    if s.len() > 0 {
        lemma_one_piece(s.drop_last());
        assert(seq![s.drop_last()].drop_last() =~= Seq::<Seq<char>>::empty());
        assert(s.drop_last().push(s.last()) =~= s);
        assert(split_on(s, ' ') =~= seq![s]);
    } else {
        assert(s =~= seq![]);
        assert(split_on(s, ' ') =~= seq![s]);
    }
}

/// A date and a clock time are the two pieces around the blank.
pub proof fn lemma_two_pieces(text: Seq<char>, date: Seq<char>, clock: Seq<char>)
    requires
        is_day_time(text, date, clock),
    ensures
        split_on(text, ' ') == seq![date, clock],
    decreases clock.len(),
{
    if clock.len() == 0 {
        assert(text.drop_last() =~= date);
        lemma_one_piece(date);
        assert(clock =~= seq![]);
        assert(split_on(text, ' ') =~= seq![date, clock]);
    } else {
        assert(text.last() == clock.last());
        assert(text.drop_last() =~= date + seq![' '] + clock.drop_last());
        lemma_two_pieces(text.drop_last(), date, clock.drop_last());
        assert(clock.drop_last().push(clock.last()) =~= clock);
        assert(split_on(text, ' ') =~= seq![date, clock]);
    }
}

/// Whether there is a calendar date of the time.
pub fn is_showable_time(timestamp: u64) -> (r: bool)
    ensures
        r == showable_time(timestamp),
{
    timestamp <= 8210266876799 || timestamp >= 18446735739108322816
}

/// The date and the clock time in the machine's time zone, whichever it is.
pub fn timestamp_str(timestamp: u64) -> (r: String)
    requires
        showable_time(timestamp),
    ensures
        time_reads(timestamp, r@),
{
    let text = local_time(timestamp);
    let r = strip_zone(text.as_str());
    proof {
        let (date, clock, zone) = choose|date: Seq<char>, clock: Seq<char>, zone: Seq<char>|
            is_stamp(text@, date, clock, zone);
        let head = date + seq![' '] + clock;
        assert(text@ =~= head + seq![' '] + zone);
        lemma_blank_free_tail(head, zone);
        assert(r@ =~= head);
        assert(is_day_time(r@, date, clock));
    }
    r
}

} // verus!

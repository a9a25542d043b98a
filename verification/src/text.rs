//! Text on the level of characters and of UTF-8 bytes.

use vstd::prelude::*;
use vstd::string::*;
use vstd::utf8::*;

verus! {

/// The texts of a list.
pub open spec fn texts(list: Seq<String>) -> Seq<Seq<char>> {
    list.map_values(|s: String| s@)
}

/// How many bytes a character takes in UTF-8.
pub open spec fn char_bytes(c: char) -> nat {
    encode_scalar(c as u32).len()
}

/// How many bytes a text takes in UTF-8.
pub open spec fn byte_len(s: Seq<char>) -> nat {
    encode_utf8(s).len()
}

/// The first `k` characters of `s` take `pos` bytes.
pub open spec fn at_byte(s: Seq<char>, pos: int, k: int) -> bool {
    0 <= k <= s.len() && byte_len(s.take(k)) == pos
}

/// Byte `pos` of `s` stands between two characters, or at an end.
pub open spec fn boundary(s: Seq<char>, pos: int) -> bool {
    exists|k: int| at_byte(s, pos, k)
}

/// How many characters stand before byte `pos`.
pub open spec fn char_index(s: Seq<char>, pos: int) -> int {
    choose|k: int| at_byte(s, pos, k)
}

/// `String::push` adds the character at the end.
pub assume_specification[ String::push ](s: &mut String, c: char)
    ensures
        final(s)@ == old(s)@.push(c),
;

/// `String::pop` takes the last character off, where there is one.
pub assume_specification[ String::pop ](s: &mut String) -> (r: Option<char>)
    ensures
        old(s)@.len() == 0 ==> r is None && final(s)@ == old(s)@,
        old(s)@.len() > 0 ==> r == Some(old(s)@.last()) && final(s)@ == old(s)@.drop_last(),
;

/// `String::insert` puts a character in at a byte position. It panics where that position does not
/// stand between two characters.
pub assume_specification[ String::insert ](s: &mut String, idx: usize, ch: char)
    requires
        boundary(old(s)@, idx as int),
    ensures
        final(s)@ == old(s)@.insert(char_index(old(s)@, idx as int), ch),
;

/// `String::remove` takes out the character that starts at a byte position. It panics where none
/// starts there.
pub assume_specification[ String::remove ](s: &mut String, idx: usize) -> (r: char)
    requires
        boundary(old(s)@, idx as int),
        idx < byte_len(old(s)@),
    ensures
        r == old(s)@[char_index(old(s)@, idx as int)],
        final(s)@ == old(s)@.remove(char_index(old(s)@, idx as int)),
;

/// `String::truncate` keeps the first `new_len` bytes. It panics where they end inside a
/// character, and keeps all where there are fewer.
pub assume_specification[ String::truncate ](s: &mut String, new_len: usize)
    requires
        new_len <= byte_len(old(s)@) ==> boundary(old(s)@, new_len as int),
    ensures
        new_len <= byte_len(old(s)@) ==> final(s)@ == old(s)@.take(
            char_index(old(s)@, new_len as int),
        ),
        new_len > byte_len(old(s)@) ==> final(s)@ == old(s)@,
;

pub proof fn lemma_byte_len_add(a: Seq<char>, b: Seq<char>)
    ensures
        byte_len(a + b) == byte_len(a) + byte_len(b),
    decreases a.len(),
{
    if a.len() == 0 {
        assert(a + b =~= b);
    } else {
        assert((a + b).drop_first() =~= a.drop_first() + b);
        lemma_byte_len_add(a.drop_first(), b);
    }
}

pub proof fn lemma_byte_len_push(a: Seq<char>, c: char)
    ensures
        byte_len(a.push(c)) == byte_len(a) + char_bytes(c),
        1 <= char_bytes(c) <= 4,
{
    assert(a.push(c) =~= a + seq![c]);
    lemma_byte_len_add(a, seq![c]);
    assert(seq![c].drop_first() =~= Seq::<char>::empty());
    assert(encode_utf8(Seq::<char>::empty()).len() == 0);
    assert(encode_utf8(seq![c]) == encode_scalar(c as u32) + encode_utf8(seq![c].drop_first()));
}

/// A longer beginning of a text takes more bytes.
pub proof fn lemma_take_bytes(s: Seq<char>, i: int, j: int)
    requires
        0 <= i <= j <= s.len(),
    ensures
        byte_len(s.take(i)) + (j - i) <= byte_len(s.take(j)) <= byte_len(s.take(i)) + 4 * (j - i),
    decreases j - i,
{
    if i < j {
        lemma_take_bytes(s, i, j - 1);
        assert(s.take(j) =~= s.take(j - 1).push(s[j - 1]));
        lemma_byte_len_push(s.take(j - 1), s[j - 1]);
    }
}

/// At most one number of characters takes `pos` bytes.
pub proof fn lemma_char_index(s: Seq<char>, pos: int, k: int)
    requires
        at_byte(s, pos, k),
    ensures
        boundary(s, pos),
        char_index(s, pos) == k,
{
    let c = char_index(s, pos);
    assert(at_byte(s, pos, c));
    if c < k {
        lemma_take_bytes(s, c, k);
    } else if k < c {
        lemma_take_bytes(s, k, c);
    }
}

/// The two ends of a text are boundaries, and it takes at least a byte a character.
pub proof fn lemma_ends(s: Seq<char>)
    ensures
        at_byte(s, 0, 0),
        at_byte(s, byte_len(s) as int, s.len() as int),
        s.len() <= byte_len(s) <= 4 * s.len(),
{
    assert(s.take(s.len() as int) =~= s);
    assert(s.take(0) =~= Seq::<char>::empty());
    assert(encode_utf8(Seq::<char>::empty()).len() == 0);
    lemma_take_bytes(s, 0, s.len() as int);
}

/// In ASCII text every position is a boundary.
pub proof fn lemma_ascii_boundary(s: Seq<char>, k: int)
    requires
        is_ascii_chars(s),
        0 <= k <= s.len(),
    ensures
        byte_len(s) == s.len(),
        at_byte(s, k, k),
        boundary(s, k),
        char_index(s, k) == k,
{
    is_ascii_chars_encode_utf8(s);
    assert(is_ascii_chars(s.take(k)));
    is_ascii_chars_encode_utf8(s.take(k));
    lemma_char_index(s, k, k);
}

/// Whether two texts are the same.
pub fn same_text(a: &str, b: &str) -> (r: bool)
    ensures
        r == (a@ == b@),
{
    let x = a.as_bytes();
    let y = b.as_bytes();
    proof {
        encode_utf8_decode_utf8(a@);
        encode_utf8_decode_utf8(b@);
    }
    if x.len() != y.len() {
        return false;
    }
    let mut i: usize = 0;
    while i < x.len()
        invariant
            i <= x@.len(),
            x@.len() == y@.len(),
            x@ == encode_utf8(a@),
            y@ == encode_utf8(b@),
            forall|j: int| 0 <= j < i ==> x@[j] == y@[j],
        decreases x@.len() - i,
    {
        if x[i] != y[i] {
            return false;
        }
        i += 1;
    }
    assert(x@ =~= y@);
    true
}

/// How many bytes a text takes.
pub fn bytes_in(s: &str) -> (r: usize)
    ensures
        r == byte_len(s@),
{
    s.as_bytes().len()
}

/// The characters of a text.
pub fn chars_of(s: &str) -> (r: Vec<char>)
    ensures
        r@ == s@,
{
    let mut r: Vec<char> = Vec::new();
    for c in it: s.chars()
        invariant
            r@ == it.seq().take(it.index()),
            it.seq() == s@,
    {
        r.push(c);
    }
    assert(r@ =~= s@);
    r
}

/// Whether byte `pos` stands between two characters, or at an end.
pub fn is_boundary(s: &str, pos: usize) -> (r: bool)
    ensures
        r == boundary(s@, pos as int),
{
    let chars = chars_of(s);
    let mut k: usize = 0;
    let mut at: usize = 0;
    proof {
        lemma_ends(s@);
    }
    let total = bytes_in(s);
    while k < chars.len() && at < pos
        invariant
            k <= chars@.len(),
            chars@ == s@,
            total == byte_len(s@),
            at_byte(s@, at as int, k as int),
            k > 0 ==> byte_len(s@.take(k - 1)) < pos,
        decreases chars@.len() - k,
    {
        let c = chars[k];
        proof {
            assert(s@.take(k + 1) =~= s@.take(k as int).push(c));
            lemma_byte_len_push(s@.take(k as int), c);
            lemma_take_bytes(s@, k + 1, s@.len() as int);
            assert(s@.take(s@.len() as int) =~= s@);
        }
        at += width_of(c);
        k += 1;
    }
    proof {
        if at == pos {
            lemma_char_index(s@, pos as int, k as int);
        } else if boundary(s@, pos as int) {
            let j = char_index(s@, pos as int);
            if j < k {
                lemma_take_bytes(s@, j, k - 1);
            } else {
                lemma_take_bytes(s@, k as int, j);
            }
        }
    }
    at == pos
}

/// How many bytes a character takes in UTF-8.
fn width_of(c: char) -> (r: usize)
    ensures
        r == char_bytes(c),
{
    let v = c as u32;
    if v < 0x80 {
        1
    } else if v < 0x800 {
        2
    } else if v < 0x10000 {
        3
    } else {
        4
    }
}

} // verus!

//! What the client has from other crates.

use vstd::prelude::*;
use vstd::string::*;

use crate::layout::{Constraint, Rect};
use crate::words::join_with;

verus! {

/// The SHA-256 digest of a text's UTF-8 bytes.
pub uninterp spec fn sha256(text: Seq<char>) -> Seq<u8>;

/// `sha2::Sha256::digest`: the digest of the text's bytes, which depends on them alone and is 32
/// bytes long.
#[verifier::external_body]
pub(crate) fn sha256_digest(text: &str) -> (r: Vec<u8>)
    ensures
        r@ == sha256(text@),
        r@.len() == 32,
{
    <sha2::Sha256 as sha2::Digest>::digest(text).to_vec()
}

/// The extended grapheme clusters of a text.
pub uninterp spec fn graphemes_of(text: Seq<char>) -> Seq<Seq<char>>;

/// `unicode_segmentation::UnicodeSegmentation::graphemes`: the extended grapheme clusters of the
/// text, which depend on it alone. None is empty, and one after the other they are the text.
#[verifier::external_body]
pub(crate) fn graphemes(text: &str) -> (r: Vec<String>)
    ensures
        r@.map_values(|g: String| g@) == graphemes_of(text@),
        forall|i: int| 0 <= i < r@.len() ==> (#[trigger] r@[i])@.len() > 0,
        join_with(r@.map_values(|g: String| g@), seq![]) == text@,
{
    unicode_segmentation::UnicodeSegmentation::graphemes(text, true).map(|g| g.to_string()).collect()
}

/// A time of which there is a calendar date: as many seconds after 1970 as the calendar reaches,
/// or, read as a number below zero, as many before.
pub open spec fn showable_time(timestamp: u64) -> bool {
    timestamp <= 8210266876799 || timestamp >= 18446735739108322816
}

/// There is no blank in the text.
pub open spec fn blank_free(s: Seq<char>) -> bool {
    forall|i: int| 0 <= i < s.len() ==> #[trigger] s[i] != ' '
}

/// A date, a clock time and a time zone with a blank between two of them.
pub open spec fn is_stamp(
    text: Seq<char>,
    date: Seq<char>,
    clock: Seq<char>,
    zone: Seq<char>,
) -> bool {
    &&& text == date + seq![' '] + clock + seq![' '] + zone
    &&& blank_free(date)
    &&& blank_free(clock)
    &&& blank_free(zone)
}

/// In some time zone, the time reads as this text.
pub uninterp spec fn reads_in_zone(timestamp: u64, text: Seq<char>) -> bool;

/// `chrono::DateTime::from_timestamp`, taken to the machine's time zone and shown: the text that
/// the time reads as in some time zone, which is a date, a clock time and the zone's distance from
/// UTC, with a blank between two of them. Which zone it is rests on the machine and is left unsaid.
#[verifier::external_body]
pub(crate) fn local_time(timestamp: u64) -> (r: String)
    requires
        showable_time(timestamp),
    ensures
        reads_in_zone(timestamp, r@),
        exists|date: Seq<char>, clock: Seq<char>, zone: Seq<char>|
            is_stamp(r@, date, clock, zone),
{
    let time = chrono::DateTime::from_timestamp(timestamp as i64, 0).unwrap();
    format!("{}", time.with_timezone(&chrono::Local))
}

/// `rand::random_ratio`: true with a chance of `numerator` in `denominator`. Only the two certain
/// chances decide the outcome.
#[verifier::external_body]
pub(crate) fn chance(numerator: u32, denominator: u32) -> (r: bool)
    requires
        0 < denominator,
        numerator <= denominator,
    ensures
        numerator == 0 ==> !r,
        numerator == denominator ==> r,
{
    rand::random_ratio(numerator, denominator)
}

/// `rand::random` at `u8`: any byte.
#[verifier::external_body]
pub(crate) fn random_byte() -> (r: u8) {
    rand::random::<u8>()
}

/// The area may be cut into these parts, one below the other.
pub uninterp spec fn cuts_down(constraints: Seq<Constraint>, area: Rect, parts: Seq<Rect>) -> bool;

/// The area may be cut into these parts, one beside the other.
pub uninterp spec fn cuts_across(
    constraints: Seq<Constraint>,
    area: Rect,
    parts: Seq<Rect>,
) -> bool;

/// `ratatui::layout::Layout::vertical` and its `split`: parts into which the area may be cut by the
/// constraints, one for each of them, all of the whole width. Their heights come from a solver that
/// walks hash maps, so that there may be several ways; which one it takes is left unsaid.
#[verifier::external_body]
pub(crate) fn split_vertical(constraints: &Vec<Constraint>, area: Rect) -> (r: Vec<Rect>)
    ensures
        cuts_down(constraints@, area, r@),
        r@.len() == constraints@.len(),
        forall|i: int|
            0 <= i < r@.len() ==> (#[trigger] r@[i]).x == area.x && r@[i].width == area.width,
{
    let parts: Vec<ratatui::layout::Constraint> = constraints.iter().map(
        |c| match c {
            Constraint::Length(n) => ratatui::layout::Constraint::Length(*n),
            Constraint::Min(n) => ratatui::layout::Constraint::Min(*n),
            Constraint::Percentage(n) => ratatui::layout::Constraint::Percentage(*n),
        },
    ).collect();
    let Rect { x, y, width, height } = area;
    let whole = ratatui::layout::Rect { x, y, width, height };
    ratatui::layout::Layout::vertical(parts).split(whole).iter().map(
        |r| Rect { x: r.x, y: r.y, width: r.width, height: r.height },
    ).collect()
}

/// `ratatui::layout::Layout::horizontal` and its `split`: parts into which the area may be cut by
/// the constraints, one for each of them, all of the whole height. Their widths come from a solver
/// that walks hash maps, so that there may be several ways; which one it takes is left unsaid.
#[verifier::external_body]
pub(crate) fn split_horizontal(constraints: &Vec<Constraint>, area: Rect) -> (r: Vec<Rect>)
    ensures
        cuts_across(constraints@, area, r@),
        r@.len() == constraints@.len(),
        forall|i: int|
            0 <= i < r@.len() ==> (#[trigger] r@[i]).y == area.y && r@[i].height == area.height,
{
    let parts: Vec<ratatui::layout::Constraint> = constraints.iter().map(
        |c| match c {
            Constraint::Length(n) => ratatui::layout::Constraint::Length(*n),
            Constraint::Min(n) => ratatui::layout::Constraint::Min(*n),
            Constraint::Percentage(n) => ratatui::layout::Constraint::Percentage(*n),
        },
    ).collect();
    let Rect { x, y, width, height } = area;
    let whole = ratatui::layout::Rect { x, y, width, height };
    ratatui::layout::Layout::horizontal(parts).split(whole).iter().map(
        |r| Rect { x: r.x, y: r.y, width: r.width, height: r.height },
    ).collect()
}

/// The X25519 public key of a secret key.
pub uninterp spec fn x25519_public(secret: Seq<u8>) -> Seq<u8>;

/// `x25519_dalek::StaticSecret::random`: any secret key.
#[verifier::external_body]
pub(crate) fn random_secret() -> (r: [u8; 32]) {
    x25519_dalek::StaticSecret::random().to_bytes()
}

/// `x25519_dalek::PublicKey::from` at a secret key: the public key that belongs to it, which
/// depends on it alone.
#[verifier::external_body]
pub(crate) fn public_key(secret: &[u8; 32]) -> (r: [u8; 32])
    ensures
        r@ == x25519_public(secret@),
{
    x25519_dalek::PublicKey::from(&x25519_dalek::StaticSecret::from(*secret)).to_bytes()
}

/// The Base64 text of some bytes, in the standard alphabet and with padding.
pub uninterp spec fn base64_of(bytes: Seq<u8>) -> Seq<char>;

/// `base64::encode`: the Base64 text of the bytes, which depends on them alone.
#[verifier::external_body]
#[allow(deprecated)]
pub(crate) fn base64_text(bytes: &[u8; 32]) -> (r: String)
    ensures
        r@ == base64_of(bytes@),
{
    base64::encode(bytes)
}

} // verus!

//! What the client asks of the world around it.

use vstd::prelude::*;
use vstd::string::*;

use crate::json::{is_object_text, parsed_json, written_json, JsonView};

verus! {

/// What is to be done where a text cannot be sent.
#[derive(Clone, Copy, Debug, PartialEq, Eq, Structural)]
pub enum Delivery {
    /// The client cannot go on.
    Required,
    /// Nothing.
    Ignored,
    /// The user is told that a message was not sent.
    Chat,
    /// The user is told that the connection timed out.
    Data,
    /// The user is told that there was no answer to a ping.
    Pong,
}

/// Something that the client wants done, in the order in which it is given.
#[derive(Clone, Debug)]
pub enum Effect {
    /// Show that something is happening.
    Status(String),
    /// Show what has happened.
    Notice(String),
    /// Connect to the address.
    Connect(String),
    /// Send the text to the server.
    Send(String, Delivery),
    /// Answer a ping.
    Pong(Vec<u8>),
    /// Close the connection for the given reason, whether or not that works.
    Close(String),
    /// Stop reading from the connection.
    AbortReader,
    /// Copy the text.
    Copy(String),
}

/// What is asked for. Of a text that is sent it is what it reads as that counts.
pub enum EffectView {
    Status(Seq<char>),
    Notice(Seq<char>),
    Connect(Seq<char>),
    Send(Option<JsonView>, Delivery),
    Pong(Seq<u8>),
    Close(Seq<char>),
    AbortReader,
    Copy(Seq<char>),
}

impl View for Effect {
    type V = EffectView;

    open spec fn view(&self) -> EffectView {
        match self {
            Effect::Status(text) => EffectView::Status(text@),
            Effect::Notice(text) => EffectView::Notice(text@),
            Effect::Connect(url) => EffectView::Connect(url@),
            Effect::Send(text, delivery) => EffectView::Send(parsed_json(text@), *delivery),
            Effect::Pong(bytes) => EffectView::Pong(bytes@),
            Effect::Close(reason) => EffectView::Close(reason@),
            Effect::AbortReader => EffectView::AbortReader,
            Effect::Copy(text) => EffectView::Copy(text@),
        }
    }
}

/// What is asked for, in order.
pub open spec fn effects_view(effects: Seq<Effect>) -> Seq<EffectView> {
    effects.map_values(|e: Effect| e@)
}

/// A text that is sent is the compact text of the object that it reads as. Where the client cannot
/// go on without it, it is the one text that is written for that object; else its members may stand
/// in any order.
pub open spec fn sent_compact(effect: Effect) -> bool {
    match effect {
        Effect::Send(text, delivery) => {
            &&& parsed_json(text@) is Some
            &&& parsed_json(text@)->0 is Dict
            &&& if delivery == Delivery::Required {
                text@ == written_json(parsed_json(text@)->0)
            } else {
                is_object_text(text@, parsed_json(text@)->0->Dict_0)
            }
        },
        _ => true,
    }
}

/// Every text that is sent is compact.
pub open spec fn all_compact(effects: Seq<Effect>) -> bool {
    forall|i: int| 0 <= i < effects.len() ==> sent_compact(#[trigger] effects[i])
}

/// Nothing to do.
pub fn no_effects() -> (r: Vec<Effect>)
    ensures
        effects_view(r@) == Seq::<EffectView>::empty(),
        all_compact(r@),
{
    let r: Vec<Effect> = Vec::new();
    assert(effects_view(r@) =~= Seq::<EffectView>::empty());
    r
}

/// One thing to do.
pub fn one_effect(effect: Effect) -> (r: Vec<Effect>)
    ensures
        r@ == seq![effect],
        effects_view(r@) == seq![effect@],
{
    let mut r: Vec<Effect> = Vec::new();
    r.push(effect);
    assert(effects_view(r@) =~= seq![effect@]);
    r
}

/// Two things to do.
pub fn two_effects(first: Effect, second: Effect) -> (r: Vec<Effect>)
    ensures
        r@ == seq![first, second],
        effects_view(r@) == seq![first@, second@],
{
    let mut r: Vec<Effect> = Vec::new();
    r.push(first);
    r.push(second);
    assert(effects_view(r@) =~= seq![first@, second@]);
    r
}

} // verus!

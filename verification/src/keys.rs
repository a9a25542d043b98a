//! The keys of the client.

use vstd::prelude::*;

use crate::json::{exact_members, lemma_members_push, members_view, Json, JsonView};
use crate::outside::{base64_of, base64_text, public_key, random_secret, x25519_public};

verus! {

/// A secret key, whatever it is, and the public key that belongs to it.
pub fn generate_keys() -> (r: ([u8; 32], [u8; 32]))
    ensures
        r.1@ == x25519_public(r.0@),
{
    let private = random_secret();
    let public = public_key(&private);
    (private, public)
}

/// The members that tell the server the public key.
pub fn key_members(public: &[u8; 32]) -> (r: Vec<(String, Json)>)
    ensures
        members_view(r@) == map!["key"@ => JsonView::Text(base64_of(public@))],
        exact_members(members_view(r@)),
{
    let mut members: Vec<(String, Json)> = Vec::new();
    let name = "key".to_owned();
    let value = Json::Text(base64_text(public));
    proof {
        lemma_members_push(members@, name, value);
        assert(members_view(members@) =~= Map::empty());
    }
    members.push((name, value));
    assert(members_view(members@) =~= map!["key"@ => JsonView::Text(base64_of(public@))]);
    members
}

} // verus!

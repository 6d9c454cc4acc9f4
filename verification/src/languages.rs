//! The language-list query as the native-ABI boundary needs it: the
//! engine-supported tags, lowercased, encoded as one JSON array.

use vstd::prelude::*;

use crate::chars::lower_seq;
use crate::resolve::lowercase_tags;

verus! {

/// The JSON array text that encodes a list of tags, in order.
pub uninterp spec fn json_of_tags(tags: Seq<Seq<char>>) -> Seq<char>;

/// Relies on `serde_json::to_string` applied to a vector of strings: it
/// returns the JSON array holding exactly those strings in order, a
/// function of the list alone (serializing a string vector cannot fail).
#[verifier::external_body]
fn tags_to_json(tags: &Vec<String>) -> (r: String)
    ensures
        r@ == json_of_tags(tags.deep_view()),
{
    serde_json::to_string(tags).unwrap_or(String::from("[]"))
}

/// The JSON answer to the language query: the supported tags as the engine
/// enumerated them, lowercased in place, as one JSON array.
pub fn languages_to_json(tags: &Vec<String>) -> (r: String)
    ensures
        r@ == json_of_tags(tags.deep_view().map_values(|t: Seq<char>| lower_seq(t))),
{
    let lowered = lowercase_tags(tags);
    tags_to_json(&lowered)
}

} // verus!

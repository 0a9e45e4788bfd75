//! The embedded form of a user's pinned product ids.
//!
//! The store keeps a user's pinned product ids as one serialized JSON list
//! in a single text column.  Encoding always succeeds; on the way back a
//! malformed stored value is tolerated and reads as "no pinned products"
//! rather than failing the whole row — the damage stays confined to that
//! one field.

use vstd::prelude::*;

verus! {

/// The id list a JSON text parses to, if it parses.  Stated, not defined:
/// parsing lives in the serde_json crate, and only the trusted wrapper
/// below speaks for it.
pub uninterp spec fn json_id_list_of(s: Seq<char>) -> Option<Seq<i64>>;

/// The JSON text an id list serializes to.  Stated, not defined: the
/// serializer lives in the serde_json crate, and only the trusted wrapper
/// below speaks for it.
pub uninterp spec fn json_of_id_list(v: Seq<i64>) -> Seq<char>;

/// Relies on serde_json::from_str for `Vec<i64>`: the outcome is a
/// function of the input text alone.
#[verifier::external_body]
fn parse_id_list(s: &str) -> (r: Option<Vec<i64>>)
    ensures
        match r {
            Some(v) => json_id_list_of(s@) == Some(v@),
            None => json_id_list_of(s@) == None::<Seq<i64>>,
        },
{
    serde_json::from_str::<Vec<i64>>(s).ok()
}

/// Relies on serde_json::to_string for `Vec<i64>`: serializing a list of
/// integers cannot fail, and the text is a function of the list alone.
#[verifier::external_body]
fn id_list_to_json(v: &Vec<i64>) -> (r: String)
    ensures
        r@ == json_of_id_list(v@),
{
    serde_json::to_string(v).unwrap()
}

/// The stored text for a user's pinned product ids: absent stays absent,
/// a list becomes its JSON form.
pub fn encode_pinned_product_ids(ids: &Option<Vec<i64>>) -> (r: Option<String>)
    ensures
        match ids {
            Some(v) => r matches Some(s) && s@ == json_of_id_list(v@),
            None => r is None,
        },
{
    match ids {
        Some(v) => Some(id_list_to_json(v)),
        None => None,
    }
}

/// The pinned product ids read back from the stored text: an absent or
/// malformed value reads as no pinned products; only a well-formed JSON
/// list comes back as one.
pub fn decode_pinned_product_ids(text: Option<&str>) -> (r: Option<Vec<i64>>)
    ensures
        match text {
            None => r is None,
            Some(s) => match json_id_list_of(s@) {
                Some(ids) => r matches Some(v) && v@ == ids,
                None => r is None,
            },
        },
{
    match text {
        Some(s) => parse_id_list(s),
        None => None,
    }
}

} // verus!

//! Identifiers: 128-bit UUIDs and their written forms.
use crate::render::hex;
use vstd::prelude::*;

verus! {

/// 256 to the given power.
pub open spec fn pow256(k: int) -> int
    decreases k,
{
    if k <= 0 {
        1
    } else {
        256 * pow256(k - 1)
    }
}

/// The sixteen bytes of an identifier, the most significant first.
pub open spec fn id_bytes(id: u128) -> Seq<u8> {
    Seq::new(16, |i: int| (id as int / pow256(15 - i) % 256) as u8)
}

/// An identifier as 32 hexadecimal digits.
pub open spec fn simple_text(id: u128) -> Seq<char> {
    hex(id_bytes(id))
}

/// An identifier as hexadecimal digits in five groups with hyphens between them.
pub open spec fn id_text(id: u128) -> Seq<char> {
    let h = simple_text(id);
    h.subrange(0, 8) + seq!['-'] + h.subrange(8, 12) + seq!['-'] + h.subrange(12, 16) + seq!['-']
        + h.subrange(16, 20) + seq!['-'] + h.subrange(20, 32)
}

/// Calls `uuid::Uuid::from_u128` and `Uuid::into_bytes`: the bytes of the number in big-endian
/// order.
#[verifier::external_body]
pub(crate) fn id_bytes_of(id: u128) -> (r: Vec<u8>)
    ensures
        r@ == id_bytes(id),
{
    uuid::Uuid::from_u128(id).into_bytes().to_vec()
}

/// Calls `uuid::Uuid::simple` and renders the result: 32 lower-case hexadecimal digits.
#[verifier::external_body]
pub(crate) fn simple_of(id: u128) -> (r: String)
    ensures
        r@ == simple_text(id),
{
    uuid::Uuid::from_u128(id).simple().to_string()
}

/// Calls `uuid::Uuid::hyphenated` and renders the result: lower-case hexadecimal digits in
/// groups of 8, 4, 4, 4 and 12 with hyphens between them.
#[verifier::external_body]
pub(crate) fn id_text_of(id: u128) -> (r: String)
    ensures
        r@ == id_text(id),
{
    uuid::Uuid::from_u128(id).hyphenated().to_string()
}

/// The number of the version 5 identifier that a name has in the URL namespace.
pub uninterp spec fn url_name_id(name: Seq<char>) -> u128;

/// Calls `uuid::Uuid::new_v5` with the URL namespace and the bytes of the name: the result
/// depends on the name alone.
#[verifier::external_body]
pub(crate) fn url_name_id_of(name: &str) -> (r: u128)
    ensures
        r == url_name_id(name@),
{
    uuid::Uuid::new_v5(&uuid::Uuid::NAMESPACE_URL, name.as_bytes()).as_u128()
}

/// The identifier that a text stands for.
pub uninterp spec fn id_value(s: Seq<char>) -> Option<u128>;

/// Calls `uuid::Uuid::parse_str`: the result depends on the text alone, and the hyphenated form of
/// an identifier is read back as the identifier.
#[verifier::external_body]
pub(crate) fn id_value_of(s: &str) -> (r: Option<u128>)
    ensures
        r == id_value(s@),
        forall|id: u128| s@ == #[trigger] id_text(id) ==> r == Some(id),
{
    uuid::Uuid::parse_str(s).ok().map(|id| id.as_u128())
}

/// Calls `uuid::Uuid::now_v7`: an identifier made of the time and of random bits. Nothing is
/// claimed of its value.
#[verifier::external_body]
pub(crate) fn fresh_id() -> (r: u128) {
    uuid::Uuid::now_v7().as_u128()
}

} // verus!

use vstd::prelude::*;

verus! {

/// Whether `id` carries the version and variant bits of a random
/// (version 4) identifier: the version nibble is 4 and the two variant bits
/// are `10`.
pub open spec fn is_v4(id: u128) -> bool {
    id & 0x0000_0000_0000_f000_c000_0000_0000_0000u128
        == 0x0000_0000_0000_4000_8000_0000_0000_0000u128
}

/// Mints an identifier with `uuid::Uuid::new_v4`.
///
/// Trusted: the result is a random 128-bit value in which `new_v4` has
/// overwritten the version and variant bits, so every outcome satisfies
/// [`is_v4`]; nothing else is known of it, and two calls may well return the
/// same value. `new_v4` aborts if the operating system cannot supply random
/// bytes.
#[verifier::external_body]
pub(crate) fn new_v4() -> (id: u128)
    ensures
        is_v4(id),
{
    uuid::Uuid::new_v4().as_u128()
}

/// How `uuid::Uuid` prints an identifier: 32 hexadecimal digits in five
/// hyphen-separated groups.
pub uninterp spec fn uuid_text(id: u128) -> Seq<char>;

/// Prints an identifier as `uuid::Uuid` does, through `to_string` on
/// `uuid::Uuid::from_u128`.
///
/// Trusted: the text depends on the identifier alone, so it is given the
/// name [`uuid_text`].
#[verifier::external_body]
pub(crate) fn to_text(id: u128) -> (text: String)
    ensures
        text@ == uuid_text(id),
{
    uuid::Uuid::from_u128(id).to_string()
}

/// The error of `uuid::Uuid::parse_str`; nothing is read from it.
#[verifier::external_type_specification]
#[verifier::external_body]
pub struct ExUuidError(uuid::Error);

/// What `uuid::Uuid::parse_str` makes of a text: the identifier it reads, as
/// a 128-bit number, or `None` where it rejects the text.
pub uninterp spec fn uuid_parse(text: Seq<char>) -> Option<u128>;

/// Reads an identifier with `uuid::Uuid::parse_str`.
///
/// Trusted: the outcome depends on the text alone, so it is given the name
/// [`uuid_parse`]; which texts are accepted is left to the parser.
#[verifier::external_body]
pub(crate) fn parse_str(text: &str) -> (r: Result<u128, uuid::Error>)
    ensures
        match r {
            Ok(id) => uuid_parse(text@) == Some(id),
            Err(_) => uuid_parse(text@) is None,
        },
{
    match uuid::Uuid::parse_str(text) {
        Ok(id) => Ok(id.as_u128()),
        Err(e) => Err(e),
    }
}

/// The identifier written in `text`, in any of the notations that
/// identifiers are printed in.
pub fn parse(text: &str) -> (id: Option<u128>)
    ensures
        id == uuid_parse(text@),
{
    match parse_str(text) {
        Ok(id) => Some(id),
        Err(_) => None,
    }
}

} // verus!

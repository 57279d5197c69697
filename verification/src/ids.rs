//! Node identifiers: 128-bit random (version 4) UUIDs.
use vstd::prelude::*;

verus! {

#[verifier::external_type_specification]
#[verifier::external_body]
pub struct ExUuidError(uuid::Error);

/// Lower-case hexadecimal digit for a value in `0..16`.
pub open spec fn hex_digit(d: int) -> char {
    if d < 10 {
        (48 + d) as char
    } else {
        (87 + d) as char
    }
}

/// The `k`-th hexadecimal digit (most significant first) of a 128-bit value.
pub open spec fn nibble(v: u128, k: int) -> int {
    ((v >> ((124 - 4 * k) as u128)) & 15u128) as int
}

/// Position, among the 32 hex digits, of character `i` of the hyphenated form.
pub open spec fn digit_index(i: int) -> int {
    if i < 8 {
        i
    } else if i < 13 {
        i - 1
    } else if i < 18 {
        i - 2
    } else if i < 23 {
        i - 3
    } else {
        i - 4
    }
}

/// The hyphenated lower-case text of a UUID, `xxxxxxxx-xxxx-xxxx-xxxx-xxxxxxxxxxxx`.
pub open spec fn uuid_text(v: u128) -> Seq<char> {
    Seq::new(
        36,
        |i: int|
            if i == 8 || i == 13 || i == 18 || i == 23 {
                '-'
            } else {
                hex_digit(nibble(v, digit_index(i)))
            },
    )
}

/// Whether a 128-bit value carries the version-4 and RFC 4122 variant bits.
pub open spec fn is_random_uuid(v: u128) -> bool {
    &&& (v >> 76u128) & 15u128 == 4u128
    &&& (v >> 62u128) & 3u128 == 2u128
}

/// The value that `uuid::Uuid::parse_str` reads from a text, if it accepts it.
pub uninterp spec fn uuid_parse(s: Seq<char>) -> Option<u128>;

/// Calls `uuid::Uuid::new_v4`. The value is random; the crate's source sets
/// the version nibble to 4 and the variant bits to `10`, which is all that
/// is claimed here.
#[verifier::external_body]
fn random_uuid_value() -> (v: u128)
    ensures
        is_random_uuid(v),
{
    uuid::Uuid::new_v4().as_u128()
}

/// Calls `Uuid::from_u128(v).to_string()`. The crate's `Display` writes the
/// hyphenated lower-case form, 32 hex digits most significant first with
/// hyphens after digits 8, 12, 16 and 20.
#[verifier::external_body]
fn uuid_to_text(v: u128) -> (s: String)
    ensures
        s@ == uuid_text(v),
{
    uuid::Uuid::from_u128(v).to_string()
}

/// Calls `uuid::Uuid::parse_str`. The accepted formats (simple, hyphenated,
/// braced, URN) are not written out: the result is named `uuid_parse`. The
/// crate's parser reads back what its own formatter writes, which is the
/// one fact claimed beyond the name.
#[verifier::external_body]
fn uuid_from_text(s: &str) -> (r: Result<u128, uuid::Error>)
    ensures
        r is Ok <==> uuid_parse(s@) is Some,
        r matches Ok(v) ==> uuid_parse(s@) == Some(v),
        r is Ok || forall|v: u128| #[trigger] uuid_text(v) != s@,
        r matches Ok(w) ==> forall|v: u128| #[trigger] uuid_text(v) == s@ ==> w == v,
{
    uuid::Uuid::parse_str(s).map(|u| u.as_u128())
}

/// Identifier of a node (board) or joint in a design.
#[derive(Clone, Copy, Debug, PartialEq, Eq, Hash, Structural)]
pub struct NodeId(pub u128);

impl NodeId {
    /// A fresh random identifier.
    pub fn new() -> (id: NodeId)
        ensures
            is_random_uuid(id.0),
    {
        NodeId(random_uuid_value())
    }

    /// The hyphenated lower-case text of the identifier.
    pub fn to_string(&self) -> (s: String)
        ensures
            s@ == uuid_text(self.0),
    {
        uuid_to_text(self.0)
    }

    /// Reads an identifier from text.
    pub fn from_str(s: &str) -> (r: Result<NodeId, uuid::Error>)
        ensures
            r is Ok <==> uuid_parse(s@) is Some,
            r matches Ok(id) ==> uuid_parse(s@) == Some(id.0),
            forall|v: u128| #[trigger] uuid_text(v) == s@ ==> (r matches Ok(id) && id.0 == v),
    {
        match uuid_from_text(s) {
            Ok(v) => Ok(NodeId(v)),
            Err(e) => Err(e),
        }
    }
}

impl Default for NodeId {
    fn default() -> (id: NodeId)
        ensures
            is_random_uuid(id.0),
    {
        NodeId::new()
    }
}

} // verus!

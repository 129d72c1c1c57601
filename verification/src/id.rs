//! Stable identifiers for memory entities.
//!
//! An identifier is a UUIDv7, held as its 128-bit value, so identifier
//! order approximates creation order.
use crate::dedup;
use crate::text;
use vstd::prelude::*;

verus! {

/// The error `uuid::Uuid::parse_str` reports for malformed input.
#[verifier::external_type_specification]
#[verifier::external_body]
pub struct ExUuidError(uuid::Error);

/// The UUID value `uuid::Uuid::parse_str` reads from a text, when it
/// accepts the text.
pub uninterp spec fn parsed_uuid(text: Seq<char>) -> Option<u128>;

/// The value of nibble `k` of a UUID value, the most significant first.
pub open spec fn uuid_nibble(value: u128, k: int) -> int {
    ((value >> ((124 - 4 * k) as u32)) & 0xfu128) as int
}

/// Hyphens standing before position `i` of the hyphenated form.
pub open spec fn hyphens_before(i: int) -> int {
    if i < 8 {
        0
    } else if i < 13 {
        1
    } else if i < 18 {
        2
    } else if i < 23 {
        3
    } else {
        4
    }
}

/// The canonical hyphenated text of a UUID value: its 32 nibbles as
/// lowercase hexadecimal digits, most significant first, grouped 8-4-4-4-12
/// by hyphens.
pub open spec fn hyphenated_text(value: u128) -> Seq<char> {
    Seq::new(
        36,
        |i: int|
            if i == 8 || i == 13 || i == 18 || i == 23 {
                '-'
            } else {
                dedup::hex_digit(uuid_nibble(value, i - hyphens_before(i)))
            },
    )
}

/// The version field of a UUID value (its 13th hexadecimal digit).
pub open spec fn uuid_version(value: u128) -> u128 {
    (value >> 76u128) & 0xfu128
}

/// The variant field of a UUID value (the top two bits of its ninth
/// byte).
pub open spec fn uuid_variant(value: u128) -> u128 {
    (value >> 62u128) & 3u128
}

/// `uuid::Uuid::now_v7()`, as its 128-bit value: a version 7 UUID of
/// the RFC 4122 variant. The remaining bits depend on the clock and a
/// random source; nothing is promised about them.
#[verifier::external_body]
fn uuid_now_v7() -> (v: u128)
    ensures
        uuid_version(v) == 7,
        uuid_variant(v) == 2,
{
    uuid::Uuid::now_v7().as_u128()
}

/// `uuid::Uuid::parse_str`: accepts exactly the texts `parsed_uuid`
/// reads, among them the hyphenated lowercase form of every value, which
/// it reads back as that value.
#[verifier::external_body]
fn uuid_parse_str(input: &str) -> (r: Result<u128, uuid::Error>)
    ensures
        r is Ok <==> parsed_uuid(input@) is Some,
        r matches Ok(v) ==> parsed_uuid(input@) == Some(v),
        r is Ok || !(exists|v: u128| input@ == #[trigger] hyphenated_text(v)),
        r matches Ok(x) ==> (forall|v: u128| input@ == #[trigger] hyphenated_text(v) ==> x == v),
{
    uuid::Uuid::parse_str(input).map(|u| u.as_u128())
}

/// Unique identifier of a canonical memory record.
#[derive(Clone, Copy, Debug, PartialEq, Eq, PartialOrd, Ord, Hash, Structural)]
pub struct MemoryId(pub u128);

impl MemoryId {
    /// Generates a new time-ordered identifier.
    pub fn generate() -> (id: Self)
        ensures
            uuid_version(id.0) == 7,
            uuid_variant(id.0) == 2,
    {
        MemoryId(uuid_now_v7())
    }

    /// Wraps an existing UUID value.
    pub fn from_uuid(uuid: u128) -> (id: Self)
        ensures
            id.0 == uuid,
    {
        MemoryId(uuid)
    }

    /// Parses the canonical hyphenated string form.
    pub fn parse(input: &str) -> (r: Result<Self, uuid::Error>)
        ensures
            r is Ok <==> parsed_uuid(input@) is Some,
            r matches Ok(id) ==> parsed_uuid(input@) == Some(id.0),
            forall|v: u128| input@ == #[trigger] hyphenated_text(v) ==> (r matches Ok(id) && id.0 == v),
    {
        match uuid_parse_str(input) {
            Ok(v) => Ok(MemoryId(v)),
            Err(e) => Err(e),
        }
    }

    /// The UUID value.
    pub fn as_uuid(&self) -> (v: u128)
        ensures
            v == self.0,
    {
        self.0
    }

    /// Canonical hyphenated string form: the 32 hexadecimal digits of the
    /// value, lowercase, grouped 8-4-4-4-12; parsing it yields this
    /// identifier again.
    pub fn hyphenated(&self) -> (s: String)
        ensures
            s@ == hyphenated_text(self.0),
            s@.len() == 36,
    {
        let v = self.0;
        let ghost want = hyphenated_text(v);
        let mut s = String::new();
        let mut i: usize = 0;
        while i < 36
            invariant
                i <= 36,
                v == self.0,
                want == hyphenated_text(v),
                s@ == want.take(i as int),
            decreases 36 - i,
        {
            let ghost s0 = s@;
            if i == 8 || i == 13 || i == 18 || i == 23 {
                text::push_char(&mut s, '-');
            } else {
                let h: usize = if i < 8 {
                    0
                } else if i < 13 {
                    1
                } else if i < 18 {
                    2
                } else if i < 23 {
                    3
                } else {
                    4
                };
                let k: u32 = (i - h) as u32;
                let shift: u32 = 124 - 4 * k;
                let x: u128 = v >> shift;
                assert(x & 0xfu128 < 16) by (bit_vector);
                let d: u8 = (x & 0xfu128) as u8;
                assert(d as int == uuid_nibble(v, k as int));
                text::push_char(&mut s, dedup::hex_char(d));
            }
            assert(s@ =~= want.take(i + 1));
            i = i + 1;
        }
        assert(want.take(36) =~= want);
        s
    }
}

} // verus!

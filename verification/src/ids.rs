//! Record identifiers.
use vstd::prelude::*;

verus! {

/// The identifier of a stored record: the 128 bits of a UUID.
#[derive(Debug, Clone, Copy, PartialEq, Eq, Structural, Hash)]
pub struct RecordId {
    pub value: u128,
}

/// The lowercase hexadecimal digit of a value below 16.
pub open spec fn hex_digit(d: int) -> char {
    if d < 10 {
        (48 + d) as char
    } else {
        (87 + d) as char
    }
}

/// Digit `i` of the 32 hexadecimal digits of a 128-bit value, most
/// significant first.
pub open spec fn hex_nibble(value: u128, i: int) -> int {
    (value as int / vstd::arithmetic::power::pow(16, (31 - i) as nat)) % 16
}

/// The hyphenated text of a UUID value: its 32 lowercase hexadecimal
/// digits, most significant first, grouped 8-4-4-4-12.
#[verifier::opaque]
pub open spec fn uuid_hyphenated(value: u128) -> Seq<char> {
    let hex = Seq::new(32, |i: int| hex_digit(hex_nibble(value, i)));
    hex.subrange(0, 8) + seq!['-'] + hex.subrange(8, 12) + seq!['-'] + hex.subrange(12, 16) + seq![
        '-',
    ] + hex.subrange(16, 20) + seq!['-'] + hex.subrange(20, 32)
}

/// `uuid::Uuid::from_u128(value).hyphenated().to_string()`: the value's bytes
/// in big-endian order, each as two lowercase hexadecimal digits, grouped
/// 8-4-4-4-12.
#[verifier::external_body]
fn hyphenated_text(value: u128) -> (r: String)
    ensures
        r@ == uuid_hyphenated(value),
{
    uuid::Uuid::from_u128(value).hyphenated().to_string()
}

/// `uuid::Uuid::new_v4()`: a random identifier, of which nothing is promised.
#[verifier::external_body]
pub(crate) fn fresh_record_id() -> (r: RecordId) {
    RecordId { value: uuid::Uuid::new_v4().as_u128() }
}

impl RecordId {
    /// The nil UUID.
    pub fn nil() -> (r: Self)
        ensures
            r.value == 0,
    {
        RecordId { value: 0 }
    }

    pub fn from_u128(value: u128) -> (r: Self)
        ensures
            r.value == value,
    {
        RecordId { value }
    }

    /// The identifier as UUID text.
    pub fn to_text(&self) -> (r: String)
        ensures
            r@ == uuid_hyphenated(self.value),
    {
        hyphenated_text(self.value)
    }
}

} // verus!

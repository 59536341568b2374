use crate::error::Error;
use crate::text::{canonical_text, parsed_text, uuid_parse_str, uuid_to_string};
use vstd::prelude::*;

verus! {

/// A 128-bit identifier, held as its most and least significant 64 bits.
///
/// Every pair of words is an identifier; the nil identifier is the pair of
/// zeros. Two identifiers are equal when both words are, and one is below
/// another when it is so as a 128-bit number.
#[derive(Clone, Copy, Debug, Hash, PartialEq, Eq, Ord, Structural)]
pub struct ID {
    pub high: u64,
    pub low: u64,
}

/// Calls `uuid::Uuid::now_v7` and hands back the two words of the identifier
/// it made (`Uuid::as_u64_pair`). The identifier depends on the clock and on
/// random bits.
///
/// Not proved: that the version field holds 7 and the variant field holds
/// the bits `10`, whatever the clock and the random bits were.
#[verifier::external_body]
fn uuid_now_v7() -> (r: (u64, u64))
    ensures
        (ID { high: r.0, low: r.1 }).is_time_ordered(),
{
    uuid::Uuid::now_v7().as_u64_pair()
}

impl ID {
    /// The identifier as a number: `high * 2^64 + low`.
    pub open spec fn value(self) -> nat {
        (self.high as nat) * 0x1_0000_0000_0000_0000 + self.low as nat
    }

    /// The version field: bits 12 to 15 of the high word.
    pub open spec fn version(self) -> nat {
        (self.high as nat / 0x1000) % 16
    }

    /// The variant field: the two most significant bits of the low word.
    pub open spec fn variant(self) -> nat {
        self.low as nat / 0x4000_0000_0000_0000
    }

    /// The 48 most significant bits, in which a time-ordered identifier holds
    /// the milliseconds since the Unix epoch at which it was made.
    pub open spec fn timestamp_millis(self) -> nat {
        self.high as nat / 0x1_0000
    }

    /// Whether the identifier has the layout of a time-ordered one: version 7
    /// and the variant bits `10`.
    pub open spec fn is_time_ordered(self) -> bool {
        self.version() == 7 && self.variant() == 2
    }

    /// A new time-ordered identifier, made from the clock and random bits.
    pub fn new() -> (id: ID)
        ensures
            id.is_time_ordered(),
    {
        let (high, low) = uuid_now_v7();
        ID { high, low }
    }

    /// The nil identifier, all of whose bits are zero.
    pub fn nil() -> (id: ID)
        ensures
            id == (ID { high: 0, low: 0 }),
            id.value() == 0,
    {
        ID { high: 0, low: 0 }
    }

    /// The identifier with the given words.
    pub fn from_u64_pair(high: u64, low: u64) -> (id: ID)
        ensures
            id == (ID { high, low }),
    {
        ID { high, low }
    }

    /// The two words of the identifier, high word first.
    pub fn as_u64_pair(&self) -> (r: (u64, u64))
        ensures
            r == (self.high, self.low),
    {
        (self.high, self.low)
    }

    /// Reads an identifier from its textual form: thirty-two hexadecimal
    /// digits in either case, plain, or hyphenated in groups of 8, 4, 4, 4
    /// and 12, the hyphenated form also in braces or after `urn:uuid:`.
    /// Any other text is a `ParseError`.
    pub fn parse(s: &str) -> (r: Result<ID, Error>)
        ensures
            match parsed_text(s@) {
                Some((high, low)) => r == Ok::<ID, Error>(ID { high, low }),
                None => r matches Err(Error::ParseError(msg)) && msg@ == "bad id"@,
            },
    {
        match uuid_parse_str(s) {
            Some((high, low)) => Ok(ID { high, low }),
            None => Err(Error::ParseError("bad id".to_owned())),
        }
    }

    /// The canonical text of the identifier: lower case and hyphenated.
    pub fn to_string(&self) -> (r: String)
        ensures
            r@ == canonical_text(self.high, self.low),
    {
        uuid_to_string(self.high, self.low)
    }
}

impl Default for ID {
    /// The nil identifier.
    fn default() -> (id: ID)
        ensures
            id == (ID { high: 0, low: 0 }),
    {
        ID { high: 0, low: 0 }
    }
}

} // verus!

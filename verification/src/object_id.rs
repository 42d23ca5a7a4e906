//! Twelve-byte object identifiers and their hexadecimal form.

use vstd::prelude::*;
use crate::text::str_chars;

verus! {

broadcast use vstd::string::group_string_axioms;

/// A twelve-byte identifier of a stored record.
#[derive(Clone, Copy, Debug, PartialEq, Eq)]
pub struct ObjectId {
    pub bytes: [u8; 12],
}

/// Lowercase hexadecimal digit for `d < 16`.
pub open spec fn hex_digit(d: nat) -> char {
    if d < 10 {
        (('0' as u32) + d) as char
    } else {
        (('a' as u32) + d - 10) as char
    }
}

/// Lowercase hexadecimal form of `bytes`, two digits per byte, high nibble first.
pub open spec fn hex_of(bytes: Seq<u8>) -> Seq<char> {
    Seq::new(
        2 * bytes.len(),
        |i: int|
            if i % 2 == 0 {
                hex_digit((bytes[i / 2] / 16) as nat)
            } else {
                hex_digit((bytes[i / 2] % 16) as nat)
            },
    )
}

/// `c` is a hexadecimal digit (either case).
pub open spec fn is_hex_char(c: char) -> bool {
    ('0' <= c && c <= '9') || ('a' <= c && c <= 'f') || ('A' <= c && c <= 'F')
}

/// Value of a hexadecimal digit.
pub open spec fn hex_value(c: char) -> nat {
    if '0' <= c && c <= '9' {
        ((c as u32) - ('0' as u32)) as nat
    } else if 'a' <= c && c <= 'f' {
        ((c as u32) - ('a' as u32) + 10) as nat
    } else {
        ((c as u32) - ('A' as u32) + 10) as nat
    }
}

/// The bytes that a 24-digit hexadecimal string denotes, if it is one.
pub open spec fn parse_hex_id(s: Seq<char>) -> Option<Seq<u8>> {
    if s.len() == 24 && forall|i: int| 0 <= i < s.len() ==> is_hex_char(#[trigger] s[i]) {
        Some(Seq::new(12, |i: int| (hex_value(s[2 * i]) * 16 + hex_value(s[2 * i + 1])) as u8))
    } else {
        None
    }
}

/// The string is not a 24-digit hexadecimal identifier.
#[derive(Debug)]
pub struct InvalidObjectId;

/// Calls `bson::oid::ObjectId::new` and hands back its bytes. Nothing is claimed of
/// them: they come from the clock, the process and a counter.
#[verifier::external_body]
fn fresh_object_id_bytes() -> [u8; 12] {
    bson::oid::ObjectId::new().bytes()
}

fn hex_digit_char(d: u8) -> (c: char)
    requires
        d < 16,
    ensures
        c == hex_digit(d as nat),
{
    if d < 10 {
        (48 + d) as char
    } else {
        (87 + d) as char
    }
}

fn hex_char_value(c: char) -> (r: Option<u8>)
    ensures
        match r {
            Some(v) => is_hex_char(c) && v as nat == hex_value(c) && v < 16,
            None => !is_hex_char(c),
        },
{
    if '0' <= c && c <= '9' {
        Some(((c as u32) - 48) as u8)
    } else if 'a' <= c && c <= 'f' {
        Some(((c as u32) - 87) as u8)
    } else if 'A' <= c && c <= 'F' {
        Some(((c as u32) - 55) as u8)
    } else {
        None
    }
}

impl ObjectId {
    /// A fresh identifier, as the database driver generates them.
    pub fn new() -> (r: ObjectId) {
        ObjectId { bytes: fresh_object_id_bytes() }
    }

    /// The identifier made of these bytes.
    pub fn from_bytes(bytes: [u8; 12]) -> (r: ObjectId)
        ensures
            r.bytes == bytes,
    {
        ObjectId { bytes }
    }

    /// Lowercase hexadecimal form (24 digits).
    pub fn to_hex(&self) -> (r: String)
        ensures
            r@ == hex_of(self.bytes@),
    {
        let mut r = String::new();
        let mut i: usize = 0;
        while i < 12
            invariant
                i <= 12,
                r@ == hex_of(self.bytes@.subrange(0, i as int)),
            decreases 12 - i,
        {
            let b = self.bytes[i];
            let hi = hex_digit_char(b / 16);
            let lo = hex_digit_char(b % 16);
            r.push(hi);
            r.push(lo);
            i = i + 1;
            assert(hex_of(self.bytes@.subrange(0, i as int)) =~= hex_of(
                self.bytes@.subrange(0, i - 1),
            ).push(hi).push(lo));
        }
        assert(self.bytes@.subrange(0, 12) =~= self.bytes@);
        r
    }

    /// Parses a 24-digit hexadecimal identifier (either case).
    pub fn parse_str(s: &str) -> (r: Result<ObjectId, InvalidObjectId>)
        ensures
            match parse_hex_id(s@) {
                Some(b) => r matches Ok(id) && id.bytes@ == b,
                None => r is Err,
            },
    {
        let v = str_chars(s);
        if v.len() != 24 {
            return Err(InvalidObjectId);
        }
        let mut bytes = [0u8; 12];
        let mut i: usize = 0;
        while i < 12
            invariant
                i <= 12,
                v@ == s@,
                v@.len() == 24,
                forall|j: int| 0 <= j < 2 * i ==> is_hex_char(#[trigger] v@[j]),
                forall|j: int|
                    0 <= j < i ==> #[trigger] bytes@[j] == (hex_value(v@[2 * j]) * 16 + hex_value(
                        v@[2 * j + 1],
                    )) as u8,
            decreases 12 - i,
        {
            let hi = hex_char_value(v[2 * i]);
            let lo = hex_char_value(v[2 * i + 1]);
            match (hi, lo) {
                (Some(h), Some(l)) => {
                    let ghost old_bytes = bytes@;
                    bytes[i] = h * 16 + l;
                    assert forall|j: int| 0 <= j < i implies bytes@[j] == old_bytes[j] by {}
                },
                _ => {
                    return Err(InvalidObjectId);
                },
            }
            i = i + 1;
        }
        let r = ObjectId { bytes };
        assert(r.bytes@ =~= parse_hex_id(s@)->Some_0);
        Ok(r)
    }
}

/// Reading back the hexadecimal form of an identifier gives the identifier.
pub proof fn lemma_hex_round_trip(id: ObjectId)
    ensures
        parse_hex_id(hex_of(id.bytes@)) == Some(id.bytes@),
{
    let h = hex_of(id.bytes@);
    assert forall|i: int| 0 <= i < h.len() implies is_hex_char(#[trigger] h[i]) by {
        let b = id.bytes@[i / 2];
        assert(b / 16 < 16 && b % 16 < 16);
    }
    let p = parse_hex_id(h)->Some_0;
    assert forall|i: int| 0 <= i < 12 implies #[trigger] p[i] == id.bytes@[i] by {
        let b = id.bytes@[i];
        assert(h[2 * i] == hex_digit((b / 16) as nat));
        assert(h[2 * i + 1] == hex_digit((b % 16) as nat));
        assert(hex_value(hex_digit((b / 16) as nat)) == b / 16);
        assert(hex_value(hex_digit((b % 16) as nat)) == b % 16);
        assert((b / 16) * 16 + b % 16 == b);
    }
    assert(p =~= id.bytes@);
}

} // verus!

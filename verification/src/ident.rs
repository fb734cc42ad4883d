//! Identifiers of stored records: twelve bytes, written as twenty-four
//! hexadecimal digits when they travel as text.

use vstd::prelude::*;
use vstd::std_specs::cmp::PartialEqSpecImpl;

verus! {

/// Whether `c` is one of `0..9`, `a..f`, `A..F`.
pub open spec fn is_hex_digit(c: char) -> bool {
    ('0' <= c && c <= '9') || ('a' <= c && c <= 'f') || ('A' <= c && c <= 'F')
}

/// The number that a hexadecimal digit stands for.
pub open spec fn hex_value(c: char) -> int {
    if '0' <= c && c <= '9' {
        c as int - '0' as int
    } else if 'a' <= c && c <= 'f' {
        c as int - 'a' as int + 10
    } else {
        c as int - 'A' as int + 10
    }
}

/// The lower-case hexadecimal digit for a number below sixteen.
pub open spec fn hex_digit(v: int) -> char {
    if v < 10 {
        (v + '0' as int) as char
    } else {
        (v - 10 + 'a' as int) as char
    }
}

/// Whether `text` is the text form of an identifier: exactly twenty-four
/// hexadecimal digits, in either case.
pub open spec fn is_id_text(text: Seq<char>) -> bool {
    &&& text.len() == 24
    &&& forall|i: int| 0 <= i < 24 ==> is_hex_digit(#[trigger] text[i])
}

/// The bytes that an identifier's text form stands for: each pair of digits
/// is one byte, the high digit first.
pub open spec fn decode_id(text: Seq<char>) -> Seq<u8> {
    Seq::new(12, |i: int| (16 * hex_value(text[2 * i]) + hex_value(text[2 * i + 1])) as u8)
}

/// The text form of an identifier: two lower-case digits per byte, the high
/// digit first.
pub open spec fn encode_id(bytes: Seq<u8>) -> Seq<char> {
    Seq::new(
        24,
        |i: int|
            if i % 2 == 0 {
                hex_digit(bytes[i / 2] as int / 16)
            } else {
                hex_digit(bytes[i / 2] as int % 16)
            },
    )
}

/// `mongodb::bson::oid::Error`, the driver's reason for refusing a text.
/// Nothing is claimed of what it holds; it is mapped to `MalformedId`.
#[verifier::external_type_specification]
#[verifier::external_body]
pub struct ExObjectIdError(mongodb::bson::oid::Error);

/// `mongodb::bson::oid::ObjectId::parse_str`, followed by `ObjectId::bytes`.
/// The driver decodes the text as hexadecimal, two digits per byte with the
/// high digit first and either case accepted, and succeeds exactly when that
/// yields twelve bytes.
#[verifier::external_body]
fn parse_object_id(text: &str) -> (r: Result<[u8; 12], mongodb::bson::oid::Error>)
    ensures
        r is Ok <==> is_id_text(text@),
        r matches Ok(bytes) ==> bytes@ == decode_id(text@),
{
    match mongodb::bson::oid::ObjectId::parse_str(text) {
        Ok(oid) => Ok(oid.bytes()),
        Err(error) => Err(error),
    }
}

/// `mongodb::bson::oid::ObjectId::from_bytes`, followed by `ObjectId::to_hex`.
/// The driver writes each byte as two lower-case hexadecimal digits, the high
/// digit first.
#[verifier::external_body]
fn object_id_hex(bytes: [u8; 12]) -> (r: String)
    ensures
        r@ == encode_id(bytes@),
{
    mongodb::bson::oid::ObjectId::from_bytes(bytes).to_hex()
}

/// The identifier of a stored record.
#[derive(Clone, Copy, Debug)]
pub struct TodoId {
    bytes: [u8; 12],
}

impl View for TodoId {
    type V = Seq<u8>;

    closed spec fn view(&self) -> Seq<u8> {
        self.bytes@
    }
}

/// The one way in which reading an identifier fails.
#[derive(Clone, Copy, Debug, PartialEq, Eq, Structural)]
pub struct MalformedId;

impl TodoId {
    /// An identifier made of the given bytes.
    pub fn from_bytes(bytes: [u8; 12]) -> (id: TodoId)
        ensures
            id@ == bytes@,
    {
        TodoId { bytes }
    }

    /// The identifier's bytes.
    pub fn bytes(&self) -> (bytes: [u8; 12])
        ensures
            bytes@ == self@,
    {
        self.bytes
    }

    /// Reads an identifier from its text form.
    pub fn parse(text: &str) -> (r: Result<TodoId, MalformedId>)
        ensures
            r is Ok <==> is_id_text(text@),
            r matches Ok(id) ==> id@ == decode_id(text@),
    {
        match parse_object_id(text) {
            Ok(bytes) => Ok(TodoId { bytes }),
            Err(_) => Err(MalformedId),
        }
    }

    /// The identifier's text form.
    pub fn to_hex(&self) -> (text: String)
        ensures
            text@ == encode_id(self@),
    {
        object_id_hex(self.bytes)
    }

    /// Whether two identifiers are the same bytes.
    pub fn same(&self, other: &TodoId) -> (r: bool)
        ensures
            r == (self@ == other@),
    {
        let mut i: usize = 0;
        while i < 12
            invariant
                i <= 12,
                forall|j: int| 0 <= j < i ==> self.bytes@[j] == other.bytes@[j],
            decreases 12 - i,
        {
            if self.bytes[i] != other.bytes[i] {
                return false;
            }
            i += 1;
        }
        assert(self.bytes@ =~= other.bytes@);
        true
    }
}

impl PartialEq for TodoId {
    fn eq(&self, other: &TodoId) -> (r: bool) {
        self.same(other)
    }
}

impl Eq for TodoId {

}

impl PartialEqSpecImpl for TodoId {
    open spec fn obeys_eq_spec() -> bool {
        true
    }

    open spec fn eq_spec(&self, other: &TodoId) -> bool {
        self@ == other@
    }
}

/// Every identifier has twelve bytes.
pub proof fn id_has_twelve_bytes(id: TodoId)
    ensures
        id@.len() == 12,
{
}

/// The text form of an identifier is well formed, and reading it gives the
/// identifier back.
pub proof fn text_form_reads_back(bytes: Seq<u8>)
    requires
        bytes.len() == 12,
    ensures
        is_id_text(encode_id(bytes)),
        decode_id(encode_id(bytes)) == bytes,
{
    let text = encode_id(bytes);
    assert forall|i: int| 0 <= i < 24 implies is_hex_digit(#[trigger] text[i]) by {
        let b = bytes[i / 2] as int;
        assert(0 <= b / 16 < 16 && 0 <= b % 16 < 16);
    }
    assert forall|k: int| 0 <= k < 12 implies decode_id(text)[k] == bytes[k] by {
        let b = bytes[k] as int;
        assert((2 * k) / 2 == k && (2 * k) % 2 == 0);
        assert((2 * k + 1) / 2 == k && (2 * k + 1) % 2 == 1);
        assert(text[2 * k] == hex_digit(b / 16));
        assert(text[2 * k + 1] == hex_digit(b % 16));
        assert(hex_value(hex_digit(b / 16)) == b / 16);
        assert(hex_value(hex_digit(b % 16)) == b % 16);
    }
    assert(decode_id(text) =~= bytes);
}

} // verus!

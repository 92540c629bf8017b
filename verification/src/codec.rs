//! The byte form in which a record is stored.
//!
//! A record takes a header of 35 bytes, then the UTF-8 bytes of its name and
//! of its description:
//!
//! | offset | bytes | content                                         |
//! |--------|-------|-------------------------------------------------|
//! | 0      | 8     | `id`, little-endian                             |
//! | 8      | 8     | `rental_price`, little-endian                   |
//! | 16     | 8     | `created_at`, little-endian                     |
//! | 24     | 1     | 1 if the record was ever updated, else 0        |
//! | 25     | 8     | `updated_at`, little-endian; zero if there is none |
//! | 33     | 2     | length of the name in bytes, little-endian      |
//! | 35     |       | name, then description                          |
//!
//! A record is stored only if this form has at most [`MAX_SIZE`] bytes.
//! [`decode`] accepts exactly the byte strings that [`encode`] can produce.

use vstd::prelude::*;
use vstd::bytes::*;
use vstd::slice::*;
use vstd::utf8::*;
use crate::record::{Equipment, EquipmentView};

verus! {

/// Largest number of bytes that a stored record may take.
pub const MAX_SIZE: usize = 1024;

/// Number of bytes in front of the name.
pub const HEADER_SIZE: usize = 35;

/// The record is too large to be stored.
#[derive(Clone, Copy, Debug, PartialEq, Eq)]
pub struct EncodingError;

/// The bytes are not the stored form of any record.
#[derive(Clone, Copy, Debug, PartialEq, Eq)]
pub struct DecodingError;

/// Stored form of the time of the latest update: a flag and eight bytes.
pub open spec fn stamp_encoding(stamp: Option<u64>) -> Seq<u8> {
    match stamp {
        Some(t) => seq![1u8] + spec_u64_to_le_bytes(t),
        None => seq![0u8] + spec_u64_to_le_bytes(0),
    }
}

/// Stored form of a record.
pub open spec fn encoding(record: EquipmentView) -> Seq<u8> {
    let name = encode_utf8(record.name);
    spec_u64_to_le_bytes(record.id) + spec_u64_to_le_bytes(record.rental_price)
        + spec_u64_to_le_bytes(record.created_at) + stamp_encoding(record.updated_at)
        + spec_u16_to_le_bytes(name.len() as u16) + name + encode_utf8(record.description)
}

/// A name and a description are short enough for a record that holds them
/// to be stored.
pub open spec fn text_fits(name: Seq<char>, description: Seq<char>) -> bool {
    HEADER_SIZE + encode_utf8(name).len() + encode_utf8(description).len() <= MAX_SIZE
}

/// The record's stored form has at most [`MAX_SIZE`] bytes.
pub open spec fn fits(record: EquipmentView) -> bool {
    text_fits(record.name, record.description)
}

/// The record that the bytes are the stored form of, if there is one.
pub open spec fn decoding(bytes: Seq<u8>) -> Option<EquipmentView> {
    if exists|record: EquipmentView| fits(record) && encoding(record) == bytes {
        Some(choose|record: EquipmentView| fits(record) && encoding(record) == bytes)
    } else {
        None
    }
}

/// The eight bytes at offset `at`, read as a little-endian number.
spec fn field(bytes: Seq<u8>, at: int) -> u64 {
    spec_u64_from_le_bytes(bytes.subrange(at, at + 8))
}

/// The length of the name as the header gives it.
spec fn name_len(bytes: Seq<u8>) -> int {
    spec_u16_from_le_bytes(bytes.subrange(33, 35)) as int
}

/// The record read field by field from bytes laid out as a stored record.
spec fn parsed(bytes: Seq<u8>) -> EquipmentView {
    let split = 35 + name_len(bytes);
    EquipmentView {
        id: field(bytes, 0),
        name: decode_utf8(bytes.subrange(35, split)),
        description: decode_utf8(bytes.subrange(split, bytes.len() as int)),
        rental_price: field(bytes, 8),
        created_at: field(bytes, 16),
        updated_at: if bytes[24] == 0 {
            None
        } else {
            Some(field(bytes, 25))
        },
    }
}

/// The bytes are laid out as a stored record.
spec fn well_formed(bytes: Seq<u8>) -> bool {
    let split = 35 + name_len(bytes);
    &&& 35 <= bytes.len() <= 1024
    &&& bytes[24] == 1 || (bytes[24] == 0 && field(bytes, 25) == 0)
    &&& split <= bytes.len()
    &&& valid_utf8(bytes.subrange(35, split))
    &&& valid_utf8(bytes.subrange(split, bytes.len() as int))
}

/// The stored form of a record that fits is well formed and reads back as
/// the record.
proof fn lemma_parsed_encoding(record: EquipmentView)
    requires
        fits(record),
    ensures
        well_formed(encoding(record)),
        parsed(encoding(record)) == record,
        encoding(record).len() == HEADER_SIZE + encode_utf8(record.name).len() + encode_utf8(
            record.description,
        ).len(),
{
    lemma_auto_spec_u64_to_from_le_bytes();
    lemma_auto_spec_u16_to_from_le_bytes();
    let bytes = encoding(record);
    let name = encode_utf8(record.name);
    let description = encode_utf8(record.description);
    let stamp = stamp_encoding(record.updated_at);
    let width = spec_u16_to_le_bytes(name.len() as u16);
    assert(stamp.len() == 9);
    assert(bytes.subrange(0, 8) == spec_u64_to_le_bytes(record.id));
    assert(bytes.subrange(8, 16) == spec_u64_to_le_bytes(record.rental_price));
    assert(bytes.subrange(16, 24) == spec_u64_to_le_bytes(record.created_at));
    assert(bytes.subrange(24, 33) == stamp);
    assert(bytes[24] == stamp[0]);
    assert(bytes.subrange(25, 33) == stamp.subrange(1, 9));
    assert(bytes.subrange(33, 35) == width);
    assert(name_len(bytes) == name.len());
    let split = 35 + name.len() as int;
    assert(bytes.subrange(35, split) == name);
    assert(bytes.subrange(split, bytes.len() as int) == description);
    match record.updated_at {
        Some(t) => {
            assert(stamp.subrange(1, 9) == spec_u64_to_le_bytes(t));
        },
        None => {
            assert(stamp.subrange(1, 9) == spec_u64_to_le_bytes(0));
        },
    }
    encode_utf8_valid_utf8(record.name);
    encode_utf8_valid_utf8(record.description);
    encode_utf8_decode_utf8(record.name);
    encode_utf8_decode_utf8(record.description);
}

/// Well-formed bytes are the stored form of the record read from them.
proof fn lemma_encoding_parsed(bytes: Seq<u8>)
    requires
        well_formed(bytes),
    ensures
        fits(parsed(bytes)),
        encoding(parsed(bytes)) == bytes,
{
    lemma_auto_spec_u64_to_from_le_bytes();
    lemma_auto_spec_u16_to_from_le_bytes();
    let record = parsed(bytes);
    let split = 35 + name_len(bytes);
    let name = bytes.subrange(35, split);
    let description = bytes.subrange(split, bytes.len() as int);
    decode_utf8_encode_utf8(name);
    decode_utf8_encode_utf8(description);
    assert(encode_utf8(record.name) == name);
    assert(encode_utf8(record.description) == description);
    assert(spec_u64_to_le_bytes(record.id) == bytes.subrange(0, 8));
    assert(spec_u64_to_le_bytes(record.rental_price) == bytes.subrange(8, 16));
    assert(spec_u64_to_le_bytes(record.created_at) == bytes.subrange(16, 24));
    assert(spec_u64_to_le_bytes(field(bytes, 25)) == bytes.subrange(25, 33));
    assert(stamp_encoding(record.updated_at) == bytes.subrange(24, 33));
    assert(name.len() as u16 == spec_u16_from_le_bytes(bytes.subrange(33, 35)));
    assert(spec_u16_to_le_bytes(name.len() as u16) == bytes.subrange(33, 35));
    assert(encoding(record) == bytes);
}

/// Decoding reads well-formed bytes field by field and accepts no others.
proof fn lemma_decoding_parses(bytes: Seq<u8>)
    ensures
        decoding(bytes) == if well_formed(bytes) {
            Some(parsed(bytes))
        } else {
            None
        },
{
    if well_formed(bytes) {
        lemma_encoding_parsed(bytes);
        let found = choose|record: EquipmentView| fits(record) && encoding(record) == bytes;
        lemma_parsed_encoding(found);
    } else {
        assert forall|record: EquipmentView| fits(record) implies encoding(record) != bytes by {
            lemma_parsed_encoding(record);
        }
    }
}

/// A record that fits comes back from its stored form.
pub proof fn lemma_round_trip(record: EquipmentView)
    requires
        fits(record),
    ensures
        decoding(encoding(record)) == Some(record),
{
    lemma_parsed_encoding(record);
    lemma_decoding_parses(encoding(record));
}

/// What decoding gives is a record that fits and has the bytes as its
/// stored form.
pub proof fn lemma_decoding_sound(bytes: Seq<u8>)
    ensures
        decoding(bytes) matches Some(record) ==> fits(record) && encoding(record) == bytes,
{
}

/// Two records that fit and have the same stored form are the same record.
pub proof fn lemma_encoding_injective(a: EquipmentView, b: EquipmentView)
    requires
        fits(a),
        fits(b),
        encoding(a) == encoding(b),
    ensures
        a == b,
{
    lemma_parsed_encoding(a);
    lemma_parsed_encoding(b);
}

/// The stored form is as long as the header, the name and the description
/// together, so a record fits exactly if its stored form has at most
/// [`MAX_SIZE`] bytes.
pub proof fn lemma_encoding_len(record: EquipmentView)
    ensures
        encoding(record).len() == HEADER_SIZE + encode_utf8(record.name).len() + encode_utf8(
            record.description,
        ).len(),
        fits(record) <==> encoding(record).len() <= MAX_SIZE,
{
    lemma_auto_spec_u64_to_from_le_bytes();
    lemma_auto_spec_u16_to_from_le_bytes();
    assert(stamp_encoding(record.updated_at).len() == 9);
}

/// Whether a record with this name and this description can be stored.
pub fn text_fits_store(name: &String, description: &String) -> (ok: bool)
    ensures
        ok == text_fits(name@, description@),
{
    let name_bytes = name.as_str().as_bytes();
    let description_bytes = description.as_str().as_bytes();
    let room: usize = MAX_SIZE - HEADER_SIZE;
    name_bytes.len() <= room && description_bytes.len() <= room - name_bytes.len()
}

/// [`String::from_utf8`], with the error dropped: the result is a string
/// exactly if the bytes are valid UTF-8, and then they are its UTF-8 form.
#[verifier::external_body]
fn text_from_utf8(bytes: Vec<u8>) -> (text: Option<String>)
    ensures
        text is Some <==> valid_utf8(bytes@),
        text matches Some(s) ==> encode_utf8(s@) == bytes@,
{
    String::from_utf8(bytes).ok()
}

/// Appends the little-endian form of `value`.
fn put_u64(out: &mut Vec<u8>, value: u64)
    ensures
        final(out)@ == old(out)@ + spec_u64_to_le_bytes(value),
{
    let mut part = u64_to_le_bytes(value);
    out.append(&mut part);
}

/// Turns a record into its stored form. Fails, and produces nothing, if
/// that form would have more than [`MAX_SIZE`] bytes.
pub fn encode(record: &Equipment) -> (r: Result<Vec<u8>, EncodingError>)
    ensures
        match r {
            Ok(bytes) => fits(record@) && bytes@ == encoding(record@) && bytes@.len() <= MAX_SIZE,
            Err(_) => !fits(record@),
        },
{
    if !text_fits_store(&record.name, &record.description) {
        return Err(EncodingError);
    }
    let name = record.name.as_str().as_bytes();
    let description = record.description.as_str().as_bytes();
    let mut out: Vec<u8> = Vec::new();
    put_u64(&mut out, record.id);
    put_u64(&mut out, record.rental_price);
    put_u64(&mut out, record.created_at);
    match record.updated_at {
        Some(t) => {
            out.push(1);
            put_u64(&mut out, t);
        },
        None => {
            out.push(0);
            put_u64(&mut out, 0);
        },
    }
    let mut width = u16_to_le_bytes(name.len() as u16);
    out.append(&mut width);
    let mut name_part = slice_to_vec(name);
    out.append(&mut name_part);
    let mut description_part = slice_to_vec(description);
    out.append(&mut description_part);
    proof {
        lemma_encoding_len(record@);
        assert(out@ == encoding(record@));
    }
    Ok(out)
}

/// Reads a record from its stored form. Succeeds exactly on the byte
/// strings that [`encode`] produces, and then gives the record encoded.
pub fn decode(bytes: &[u8]) -> (r: Result<Equipment, DecodingError>)
    ensures
        match r {
            Ok(record) => decoding(bytes@) == Some(record@),
            Err(_) => decoding(bytes@) is None,
        },
{
    proof {
        lemma_decoding_parses(bytes@);
    }
    let len = bytes.len();
    if len < HEADER_SIZE || len > MAX_SIZE {
        return Err(DecodingError);
    }
    let id = u64_from_le_bytes(slice_subrange(bytes, 0, 8));
    let rental_price = u64_from_le_bytes(slice_subrange(bytes, 8, 16));
    let created_at = u64_from_le_bytes(slice_subrange(bytes, 16, 24));
    let flag = bytes[24];
    let stamp = u64_from_le_bytes(slice_subrange(bytes, 25, 33));
    if flag > 1 || (flag == 0 && stamp != 0) {
        return Err(DecodingError);
    }
    let name_width = u16_from_le_bytes(slice_subrange(bytes, 33, 35)) as usize;
    if name_width > len - HEADER_SIZE {
        return Err(DecodingError);
    }
    let split = HEADER_SIZE + name_width;
    let name = match text_from_utf8(slice_to_vec(slice_subrange(bytes, HEADER_SIZE, split))) {
        Some(text) => text,
        None => {
            return Err(DecodingError);
        },
    };
    let description = match text_from_utf8(slice_to_vec(slice_subrange(bytes, split, len))) {
        Some(text) => text,
        None => {
            return Err(DecodingError);
        },
    };
    proof {
        encode_utf8_decode_utf8(name@);
        encode_utf8_decode_utf8(description@);
    }
    Ok(
        Equipment {
            id,
            name,
            description,
            rental_price,
            created_at,
            updated_at: if flag == 0 {
                None
            } else {
                Some(stamp)
            },
        },
    )
}

} // verus!

//! The calls into the `protobuf` runtime that the status message makes, each
//! behind a trusted item whose contract says what the runtime's source shows.
//! Nothing in this file is proved; everything that uses it is.

use vstd::prelude::*;

use crate::unknown::{
    appends_fields_in_some_order, is_field_order, no_unknown_fields, record_unknown, unknown_field_read, unknown_fields_bytes,
    unknown_values_fit, valid_field_numbers, UnknownValues,
};
use crate::wire::{int32_field_bytes, int32_read, max_field_number, tag_read};

verus! {

#[verifier::external_type_specification]
#[verifier::external_body]
pub struct ExProtobufError(protobuf::Error);

#[verifier::external_type_specification]
#[verifier::external_body]
pub struct ExSpecialFields(protobuf::SpecialFields);

#[verifier::external_type_specification]
#[verifier::external_body]
pub struct ExFileDescriptorProto(protobuf::descriptor::FileDescriptorProto);

/// The unknown fields that `protobuf::SpecialFields` holds, by field number.
pub uninterp spec fn unknown_fields_of(fields: protobuf::SpecialFields) -> Map<u32, UnknownValues>;

/// Whether the derived `PartialEq` of `protobuf::SpecialFields` holds.
pub uninterp spec fn special_fields_equal(a: protobuf::SpecialFields, b: protobuf::SpecialFields) -> bool;

/// What `protobuf::rt::unknown_fields_size` returns for unknown fields with
/// these contents.
pub uninterp spec fn unknown_fields_encoded_len(fields: Map<u32, UnknownValues>) -> nat;

/// The `FileDescriptorProto` that `protobuf` parses from these bytes.
pub uninterp spec fn file_descriptor_proto_of(bytes: Seq<u8>) -> protobuf::descriptor::FileDescriptorProto;

/// Whether `protobuf`'s `FileDescriptorProto` parses from these bytes.
pub uninterp spec fn parses_as_file_descriptor_proto(bytes: Seq<u8>) -> bool;

/// `protobuf::SpecialFields::new`: special fields that hold no unknown field.
#[verifier::external_body]
pub(crate) fn new_special_fields() -> (r: protobuf::SpecialFields)
    ensures
        unknown_fields_of(r) == no_unknown_fields(),
{
    protobuf::SpecialFields::new()
}

/// `protobuf::SpecialFields::clear`: drops every unknown field.
#[verifier::external_body]
pub(crate) fn clear_special_fields(fields: &mut protobuf::SpecialFields)
    ensures
        unknown_fields_of(*final(fields)) == no_unknown_fields(),
{
    fields.clear()
}

/// `Clone::clone` of `protobuf::SpecialFields`: the derived clone copies the
/// unknown-field map, and the copy compares equal to what it copies.
#[verifier::external_body]
pub(crate) fn clone_special_fields(fields: &protobuf::SpecialFields) -> (r: protobuf::SpecialFields)
    ensures
        unknown_fields_of(r) == unknown_fields_of(*fields),
        special_fields_equal(r, *fields),
{
    fields.clone()
}

/// `PartialEq::eq` of `protobuf::SpecialFields` (derived), named
/// `special_fields_equal`. Equal special fields hold equal unknown fields; the
/// converse is not stated, as the runtime tells a map that was cleared from
/// one that was never allocated.
#[verifier::external_body]
pub(crate) fn special_fields_eq(a: &protobuf::SpecialFields, b: &protobuf::SpecialFields) -> (r: bool)
    ensures
        r == special_fields_equal(*a, *b),
        r ==> unknown_fields_of(*a) == unknown_fields_of(*b),
{
    a == b
}

/// `protobuf::rt::unknown_fields_size`: the number of bytes that the unknown
/// fields take when written, field after field in any order; nothing when
/// there are none. (The runtime sums in `u64`; unknown fields that fit in
/// memory cannot reach its limit. It counts a length-delimited value's length
/// as a 64-bit varint, which is what is written for values under 4 GiB.)
#[verifier::external_body]
pub(crate) fn unknown_fields_size(fields: &protobuf::SpecialFields) -> (r: u64)
    ensures
        r as nat == unknown_fields_encoded_len(unknown_fields_of(*fields)),
        unknown_values_fit(unknown_fields_of(*fields)) ==> forall|order: Seq<u32>|
            is_field_order(order, unknown_fields_of(*fields))
                ==> r as nat == #[trigger] unknown_fields_bytes(order, unknown_fields_of(*fields)).len(),
        unknown_fields_of(*fields) == no_unknown_fields() ==> r == 0,
{
    protobuf::rt::unknown_fields_size(fields.unknown_fields())
}

/// `protobuf::CachedSize::set` on the special fields' size cache. The cache
/// is not part of the unknown fields, which stay as they are.
#[verifier::external_body]
pub(crate) fn set_cached_size(fields: &protobuf::SpecialFields, size: u32) {
    fields.cached_size().set(size)
}

/// `protobuf::rt::int32_size`: the length of an `int32` field with this
/// number and value, tag included.
#[verifier::external_body]
pub(crate) fn int32_size(field_number: u32, value: i32) -> (r: u64)
    ensures
        r as nat == int32_field_bytes(field_number as nat, value as int).len(),
{
    protobuf::rt::int32_size(field_number, value)
}

/// `CodedInputStream::read_raw_tag_or_eof` on a stream over `rest`, with the
/// number of bytes it consumed: the tag read as `tag_read` states.
#[verifier::external_body]
pub(crate) fn read_tag(rest: &[u8]) -> (res: Result<Option<(u32, usize)>, protobuf::Error>)
    ensures
        match res {
            Ok(None) => tag_read(rest@) == Some(None::<(nat, nat)>),
            Ok(Some((t, n))) => tag_read(rest@) == Some(Some((t as nat, n as nat))),
            Err(_) => tag_read(rest@) is None,
        },
{
    let mut is = protobuf::CodedInputStream::from_bytes(rest);
    match is.read_raw_tag_or_eof()? {
        Some(tag) => Ok(Some((tag, is.pos() as usize))),
        None => Ok(None),
    }
}

/// `CodedInputStream::read_int32` on a stream over `rest`, with the number of
/// bytes it consumed: the value read as `int32_read` states.
#[verifier::external_body]
pub(crate) fn read_int32(rest: &[u8]) -> (res: Result<(i32, usize), protobuf::Error>)
    ensures
        match res {
            Ok((v, n)) => int32_read(rest@) == Some((v as int, n as nat)),
            Err(_) => int32_read(rest@) is None,
        },
{
    let mut is = protobuf::CodedInputStream::from_bytes(rest);
    let v = is.read_int32()?;
    Ok((v, is.pos() as usize))
}

/// `protobuf::rt::read_unknown_or_skip_group` for tag `tag` on a stream over
/// `rest`, storing into the unknown fields of `fields`, with the number of
/// bytes it consumed: the field read and kept as `unknown_field_read` states.
/// On failure it stores nothing.
#[verifier::external_body]
pub(crate) fn read_unknown(tag: u32, rest: &[u8], fields: &mut protobuf::SpecialFields) -> (res: Result<usize, protobuf::Error>)
    ensures
        match res {
            Ok(n) => unknown_field_read(tag, rest@) matches Some((m, read)) && m == n as nat
                && unknown_fields_of(*final(fields)) == record_unknown(unknown_fields_of(*old(fields)), tag, read),
            Err(_) => unknown_field_read(tag, rest@) is None
                && unknown_fields_of(*final(fields)) == unknown_fields_of(*old(fields)),
        },
{
    let mut is = protobuf::CodedInputStream::from_bytes(rest);
    protobuf::rt::read_unknown_or_skip_group(tag, &mut is, fields.mut_unknown_fields())?;
    Ok(is.pos() as usize)
}

/// `CodedOutputStream::write_enum` on a stream that appends to `out`, then
/// flushed: `out` gains the field's tag and sign-extended value. A stream
/// over a `Vec` has no error path: it grows the vector as needed.
#[verifier::external_body]
pub(crate) fn write_enum(out: &mut Vec<u8>, field_number: u32, value: i32) -> (res: Result<(), protobuf::Error>)
    requires
        0 < field_number <= max_field_number(),
    ensures
        res is Ok,
        final(out)@ == old(out)@ + int32_field_bytes(field_number as nat, value as int),
{
    let mut os = protobuf::CodedOutputStream::vec(out);
    os.write_enum(field_number, value)?;
    os.flush()
}

/// `CodedOutputStream::write_unknown_fields` on a stream that appends to
/// `out`, then flushed: `out` gains the unknown fields, one field
/// number after another, each with its values in the order of
/// `values_records`, and as many bytes as `unknown_fields_size` counts; none
/// when there are no unknown fields. In which order the field numbers come
/// (the order of the runtime's hash map) is not stated. A field number that no
/// tag can carry makes the runtime panic, so none is admitted; a
/// length-delimited value of 4 GiB or more would have its length cut to 32
/// bits, so what is written is stated only without such values. A stream
/// over a `Vec` has no error path: it grows the vector as needed.
#[verifier::external_body]
pub(crate) fn write_unknown_fields(out: &mut Vec<u8>, fields: &protobuf::SpecialFields) -> (res: Result<(), protobuf::Error>)
    requires
        valid_field_numbers(unknown_fields_of(*fields)),
    ensures
        res is Ok,
        final(out)@.subrange(0, old(out)@.len() as int) == old(out)@,
        unknown_values_fit(unknown_fields_of(*fields))
            ==> final(out)@.len() == old(out)@.len() + unknown_fields_encoded_len(unknown_fields_of(*fields)),
        unknown_values_fit(unknown_fields_of(*fields))
            ==> appends_fields_in_some_order(old(out)@, final(out)@, unknown_fields_of(*fields)),
        unknown_fields_of(*fields) == no_unknown_fields() ==> final(out)@ == old(out)@,
{
    let mut os = protobuf::CodedOutputStream::vec(out);
    os.write_unknown_fields(fields.unknown_fields())?;
    os.flush()
}

/// The field numbers under which `fields` keeps unknown values, each once, in
/// the order of the runtime's hash map (the order is not stated).
#[verifier::external_body]
pub(crate) fn unknown_field_numbers(fields: &protobuf::SpecialFields) -> (r: Vec<u32>)
    ensures
        forall|k: u32| r@.contains(k) <==> unknown_fields_of(*fields).contains_key(k),
{
    fields.unknown_fields().iter().map(|(number, _)| number).collect()
}

/// `Message::parse_from_bytes` of `protobuf`'s `FileDescriptorProto`; whether
/// it succeeds and what it gives are named, not stated.
#[verifier::external_body]
pub(crate) fn parse_file_descriptor_proto(bytes: &[u8]) -> (res: Result<protobuf::descriptor::FileDescriptorProto, protobuf::Error>)
    ensures
        res is Ok <==> parses_as_file_descriptor_proto(bytes@),
        res matches Ok(d) ==> d == file_descriptor_proto_of(bytes@),
{
    <protobuf::descriptor::FileDescriptorProto as protobuf::Message>::parse_from_bytes(bytes)
}

} // verus!

//! The unknown fields of a message as values: what the protobuf runtime keeps
//! of the fields it does not know, how it reads one such field, and how it
//! writes them back.

use vstd::prelude::*;

use crate::wire::{
    lemma_varint32_room, lemma_varint64_room, lemma_varint_decode_bounds, lemma_varint_decode_encode,
    lemma_varint_decode_prefix, max_field_number,
    varint32_decode, varint64_decode, varint_encode,
};

verus! {

#[verifier::ext_equal]
/// The unknown values kept for one field number, one list per wire type, in
/// the order in which they were read.
pub struct UnknownValues {
    pub fixed32: Seq<u32>,
    pub fixed64: Seq<u64>,
    pub varint: Seq<u64>,
    pub length_delimited: Seq<Seq<u8>>,
}

/// One unknown value as it was read from the wire.
pub enum UnknownRecord {
    Fixed32(u32),
    Fixed64(u64),
    Varint(u64),
    LengthDelimited(Seq<u8>),
}

/// No unknown values.
pub open spec fn no_unknown_values() -> UnknownValues {
    UnknownValues {
        fixed32: Seq::empty(),
        fixed64: Seq::empty(),
        varint: Seq::empty(),
        length_delimited: Seq::empty(),
    }
}

/// Unknown fields that hold nothing.
pub open spec fn no_unknown_fields() -> Map<u32, UnknownValues> {
    Map::empty()
}

/// `values` with `record` appended to the list of its wire type.
pub open spec fn push_unknown(values: UnknownValues, record: UnknownRecord) -> UnknownValues {
    match record {
        UnknownRecord::Fixed32(x) => UnknownValues { fixed32: values.fixed32.push(x), ..values },
        UnknownRecord::Fixed64(x) => UnknownValues { fixed64: values.fixed64.push(x), ..values },
        UnknownRecord::Varint(x) => UnknownValues { varint: values.varint.push(x), ..values },
        UnknownRecord::LengthDelimited(x) => UnknownValues {
            length_delimited: values.length_delimited.push(x),
            ..values
        },
    }
}

/// The unknown fields `fields` after a value of field `number` was added.
pub open spec fn add_unknown(fields: Map<u32, UnknownValues>, number: u32, record: UnknownRecord) -> Map<u32, UnknownValues> {
    let current = if fields.contains_key(number) {
        fields[number]
    } else {
        no_unknown_values()
    };
    fields.insert(number, push_unknown(current, record))
}

/// The unknown fields after an unknown field with tag `tag` was read: a value
/// is stored under the tag's field number, a skipped group stores nothing.
pub open spec fn record_unknown(fields: Map<u32, UnknownValues>, tag: u32, read: Option<UnknownRecord>) -> Map<u32, UnknownValues> {
    match read {
        Some(record) => add_unknown(fields, tag / 8, record),
        None => fields,
    }
}

/// Every field number under which unknown values are kept can be written as
/// a tag.
pub open spec fn valid_field_numbers(fields: Map<u32, UnknownValues>) -> bool {
    forall|k: u32| fields.contains_key(k) ==> 0 < k <= max_field_number()
}

/// Every length-delimited unknown value is shorter than 4 GiB, so that its
/// length is written as the size computation counts it.
pub open spec fn unknown_values_fit(fields: Map<u32, UnknownValues>) -> bool {
    forall|k: u32, i: int|
        fields.contains_key(k) && 0 <= i < fields[k].length_delimited.len()
            ==> #[trigger] fields[k].length_delimited[i].len() < 0x1_0000_0000
}

/// The number that the little-endian bytes `s` stand for.
pub open spec fn le_value(s: Seq<u8>) -> nat
    decreases s.len(),
{
    if s.len() == 0 {
        0
    } else {
        s[0] as nat + 256 * le_value(s.drop_first())
    }
}

/// The `n` little-endian bytes of `v`.
pub open spec fn le_bytes(v: nat, n: nat) -> Seq<u8>
    decreases n,
{
    if n == 0 {
        Seq::empty()
    } else {
        seq![(v % 256) as u8] + le_bytes(v / 256, (n - 1) as nat)
    }
}

/// Whether a tag carries a wire type that the runtime knows (0 to 5) and a
/// field number other than 0.
pub open spec fn tag_is_valid(tag: nat) -> bool {
    tag % 8 <= 5 && tag / 8 != 0
}

/// How the runtime reads the value of an unknown field of wire type
/// `wire_type` at the front of `rest`: the value and the bytes it takes, or
/// `None` where it fails. Groups (3) and group ends (4) have no value.
pub open spec fn unknown_value_read(wire_type: nat, rest: Seq<u8>) -> Option<(UnknownRecord, nat)> {
    if wire_type == 0 {
        match varint64_decode(rest) {
            Some((v, n)) => Some((UnknownRecord::Varint(v as u64), n)),
            None => None,
        }
    } else if wire_type == 1 {
        if rest.len() >= 8 {
            Some((UnknownRecord::Fixed64(le_value(rest.take(8)) as u64), 8))
        } else {
            None
        }
    } else if wire_type == 2 {
        match varint32_decode(rest) {
            Some((len, n)) => {
                if n + len <= rest.len() {
                    Some((UnknownRecord::LengthDelimited(rest.subrange(n as int, (n + len) as int)), n + len))
                } else {
                    None
                }
            },
            None => None,
        }
    } else if wire_type == 5 {
        if rest.len() >= 4 {
            Some((UnknownRecord::Fixed32(le_value(rest.take(4)) as u32), 4))
        } else {
            None
        }
    } else {
        None
    }
}

/// How the runtime skips the rest of a group whose start tag has been read:
/// it skips fields until the end-group tag and refuses a nested group. Gives
/// the number of bytes up to and including the end-group tag.
pub open spec fn group_skip(rest: Seq<u8>) -> Option<nat>
    decreases rest.len(),
{
    match varint32_decode(rest) {
        None => None,
        Some((t, n)) => {
            if !tag_is_valid(t) || n == 0 || n > rest.len() {
                None
            } else if t % 8 == 4 {
                Some(n)
            } else {
                match unknown_value_read(t % 8, rest.skip(n as int)) {
                    None => None,
                    Some((_, m)) => {
                        if n + m <= rest.len() {
                            match group_skip(rest.skip((n + m) as int)) {
                                Some(k) => Some(n + m + k),
                                None => None,
                            }
                        } else {
                            None
                        }
                    },
                }
            }
        },
    }
}

/// How the runtime reads the unknown field that follows tag `tag` at the
/// front of `rest`: the bytes it takes and the value it keeps (`None` for a
/// skipped group), or `None` where it fails.
pub open spec fn unknown_field_read(tag: u32, rest: Seq<u8>) -> Option<(nat, Option<UnknownRecord>)> {
    if !tag_is_valid(tag as nat) {
        None
    } else if tag % 8 == 3 {
        match group_skip(rest) {
            Some(k) => Some((k, None)),
            None => None,
        }
    } else {
        match unknown_value_read((tag % 8) as nat, rest) {
            Some((r, m)) => Some((m, Some(r))),
            None => None,
        }
    }
}

/// The bytes of one unknown value of field `number`: its tag, then the value
/// in its wire type.
pub open spec fn record_bytes(number: nat, record: UnknownRecord) -> Seq<u8> {
    match record {
        UnknownRecord::Fixed32(x) => varint_encode(number * 8 + 5) + le_bytes(x as nat, 4),
        UnknownRecord::Fixed64(x) => varint_encode(number * 8 + 1) + le_bytes(x as nat, 8),
        UnknownRecord::Varint(x) => varint_encode(number * 8) + varint_encode(x as nat),
        UnknownRecord::LengthDelimited(b) => varint_encode(number * 8 + 2) + varint_encode(b.len()) + b,
    }
}

/// The wire type of an unknown value.
pub open spec fn record_wire_type(record: UnknownRecord) -> nat {
    match record {
        UnknownRecord::Fixed32(_) => 5,
        UnknownRecord::Fixed64(_) => 1,
        UnknownRecord::Varint(_) => 0,
        UnknownRecord::LengthDelimited(_) => 2,
    }
}

/// The bytes of an unknown value after its tag.
pub open spec fn record_payload(record: UnknownRecord) -> Seq<u8> {
    match record {
        UnknownRecord::Fixed32(x) => le_bytes(x as nat, 4),
        UnknownRecord::Fixed64(x) => le_bytes(x as nat, 8),
        UnknownRecord::Varint(x) => varint_encode(x as nat),
        UnknownRecord::LengthDelimited(b) => varint_encode(b.len()) + b,
    }
}

/// A value's bytes are its tag, then its payload.
pub proof fn lemma_record_bytes_split(number: nat, record: UnknownRecord)
    ensures
        record_bytes(number, record) == varint_encode(number * 8 + record_wire_type(record)) + record_payload(record),
{
    if let UnknownRecord::LengthDelimited(b) = record {
        assert(record_bytes(number, record) =~= varint_encode(number * 8 + 2) + (varint_encode(b.len()) + b));
    }
}

/// The runtime reads an unknown value back from its payload, whatever follows.
pub proof fn lemma_value_read_of_record(record: UnknownRecord, tail: Seq<u8>)
    requires
        record matches UnknownRecord::LengthDelimited(b) ==> b.len() < 0x1_0000_0000,
    ensures
        unknown_value_read(record_wire_type(record), record_payload(record) + tail)
            == Some((record, record_payload(record).len())),
        (record_payload(record) + tail).skip(record_payload(record).len() as int) == tail,
{
    let payload = record_payload(record);
    let after = payload + tail;
    assert(after.skip(payload.len() as int) =~= tail);
    lemma_byte_room();
    lemma_varint32_room();
    lemma_varint64_room();
    match record {
        UnknownRecord::Fixed32(x) => {
            lemma_le_roundtrip(x as nat, 4);
            assert(after.take(4) =~= payload);
        },
        UnknownRecord::Fixed64(x) => {
            lemma_le_roundtrip(x as nat, 8);
            assert(after.take(8) =~= payload);
        },
        UnknownRecord::Varint(x) => {
            let enc = varint_encode(x as nat);
            assert(after.subrange(0, enc.len() as int) =~= enc);
            lemma_varint_decode_encode(x as nat, after, 0, 10, 1);
        },
        UnknownRecord::LengthDelimited(b) => {
            let enc = varint_encode(b.len());
            assert(after.subrange(0, enc.len() as int) =~= enc);
            lemma_varint_decode_encode(b.len(), after, 0, 5, 15);
            assert(after.subrange(enc.len() as int, (enc.len() + b.len()) as int) =~= b);
        },
    }
}

/// The bytes of several unknown values of field `number`, one after another.
pub open spec fn records_bytes(number: nat, records: Seq<UnknownRecord>) -> Seq<u8>
    decreases records.len(),
{
    if records.len() == 0 {
        Seq::empty()
    } else {
        record_bytes(number, records[0]) + records_bytes(number, records.drop_first())
    }
}

/// The values kept for one field, in the order the runtime writes them: the
/// 32-bit ones, the 64-bit ones, the varints, the length-delimited ones.
pub open spec fn values_records(values: UnknownValues) -> Seq<UnknownRecord> {
    values.fixed32.map_values(|x: u32| UnknownRecord::Fixed32(x))
        + values.fixed64.map_values(|x: u64| UnknownRecord::Fixed64(x))
        + values.varint.map_values(|x: u64| UnknownRecord::Varint(x))
        + values.length_delimited.map_values(|x: Seq<u8>| UnknownRecord::LengthDelimited(x))
}

/// The bytes of the unknown fields written field by field in the order of
/// the field numbers in `order`.
pub open spec fn unknown_fields_bytes(order: Seq<u32>, fields: Map<u32, UnknownValues>) -> Seq<u8>
    decreases order.len(),
{
    if order.len() == 0 {
        Seq::empty()
    } else {
        records_bytes(order[0] as nat, values_records(fields[order[0]]))
            + unknown_fields_bytes(order.drop_first(), fields)
    }
}

/// `order` lists every field number of `fields` once.
pub open spec fn is_field_order(order: Seq<u32>, fields: Map<u32, UnknownValues>) -> bool {
    &&& order.no_duplicates()
    &&& forall|k: u32| order.contains(k) <==> fields.contains_key(k)
}

/// `after` is `before` followed by the unknown fields `fields`, written in
/// some order of their field numbers.
pub open spec fn appends_fields_in_some_order(before: Seq<u8>, after: Seq<u8>, fields: Map<u32, UnknownValues>) -> bool {
    exists|order: Seq<u32>| is_field_order(order, fields) && after == before + #[trigger] unknown_fields_bytes(order, fields)
}

/// The unknown fields after the values `records` of field `number` were
/// added one after another.
pub open spec fn add_records(fields: Map<u32, UnknownValues>, number: u32, records: Seq<UnknownRecord>) -> Map<u32, UnknownValues>
    decreases records.len(),
{
    if records.len() == 0 {
        fields
    } else {
        add_records(add_unknown(fields, number, records[0]), number, records.drop_first())
    }
}

/// `values` after `records` were appended one after another.
pub open spec fn push_records(values: UnknownValues, records: Seq<UnknownRecord>) -> UnknownValues
    decreases records.len(),
{
    if records.len() == 0 {
        values
    } else {
        push_records(push_unknown(values, records[0]), records.drop_first())
    }
}

/// The values below which `n` little-endian bytes can hold a number.
pub open spec fn byte_room(n: nat) -> nat
    decreases n,
{
    if n == 0 {
        1
    } else {
        256 * byte_room((n - 1) as nat)
    }
}

/// Four bytes hold what a `u32` holds, eight what a `u64` holds.
pub proof fn lemma_byte_room()
    ensures
        byte_room(4) == 0x1_0000_0000,
        byte_room(8) == 0x1_0000_0000_0000_0000,
{
    reveal_with_fuel(byte_room, 9);
}

/// Little-endian bytes read back as the number they were written from.
pub proof fn lemma_le_roundtrip(v: nat, n: nat)
    requires
        v < byte_room(n),
    ensures
        le_bytes(v, n).len() == n,
        le_value(le_bytes(v, n)) == v,
    decreases n,
{
    if n > 0 {
        assert(v / 256 < byte_room((n - 1) as nat)) by (nonlinear_arith)
            requires
                v < 256 * byte_room((n - 1) as nat),
        ;
        lemma_le_roundtrip(v / 256, (n - 1) as nat);
        assert(le_bytes(v, n).drop_first() =~= le_bytes(v / 256, (n - 1) as nat));
    }
}

/// Appending a list of records is appending its first part, then the rest.
pub proof fn lemma_push_records_append(values: UnknownValues, a: Seq<UnknownRecord>, b: Seq<UnknownRecord>)
    ensures
        push_records(values, a + b) == push_records(push_records(values, a), b),
    decreases a.len(),
{
    if a.len() == 0 {
        assert(a + b =~= b);
    } else {
        assert((a + b).drop_first() =~= a.drop_first() + b);
        lemma_push_records_append(push_unknown(values, a[0]), a.drop_first(), b);
    }
}

/// Appending 32-bit records extends the 32-bit list only.
pub proof fn lemma_push_fixed32(values: UnknownValues, xs: Seq<u32>)
    ensures
        push_records(values, xs.map_values(|x: u32| UnknownRecord::Fixed32(x)))
            == (UnknownValues { fixed32: values.fixed32 + xs, ..values }),
    decreases xs.len(),
{
    let rs = xs.map_values(|x: u32| UnknownRecord::Fixed32(x));
    if xs.len() == 0 {
        assert(values.fixed32 + xs =~= values.fixed32);
    } else {
        assert(rs.drop_first() =~= xs.drop_first().map_values(|x: u32| UnknownRecord::Fixed32(x)));
        lemma_push_fixed32(push_unknown(values, rs[0]), xs.drop_first());
        assert(values.fixed32.push(xs[0]) + xs.drop_first() =~= values.fixed32 + xs);
    }
}

/// Appending 64-bit records extends the 64-bit list only.
pub proof fn lemma_push_fixed64(values: UnknownValues, xs: Seq<u64>)
    ensures
        push_records(values, xs.map_values(|x: u64| UnknownRecord::Fixed64(x)))
            == (UnknownValues { fixed64: values.fixed64 + xs, ..values }),
    decreases xs.len(),
{
    let rs = xs.map_values(|x: u64| UnknownRecord::Fixed64(x));
    if xs.len() == 0 {
        assert(values.fixed64 + xs =~= values.fixed64);
    } else {
        assert(rs.drop_first() =~= xs.drop_first().map_values(|x: u64| UnknownRecord::Fixed64(x)));
        lemma_push_fixed64(push_unknown(values, rs[0]), xs.drop_first());
        assert(values.fixed64.push(xs[0]) + xs.drop_first() =~= values.fixed64 + xs);
    }
}

/// Appending varint records extends the varint list only.
pub proof fn lemma_push_varint(values: UnknownValues, xs: Seq<u64>)
    ensures
        push_records(values, xs.map_values(|x: u64| UnknownRecord::Varint(x)))
            == (UnknownValues { varint: values.varint + xs, ..values }),
    decreases xs.len(),
{
    let rs = xs.map_values(|x: u64| UnknownRecord::Varint(x));
    if xs.len() == 0 {
        assert(values.varint + xs =~= values.varint);
    } else {
        assert(rs.drop_first() =~= xs.drop_first().map_values(|x: u64| UnknownRecord::Varint(x)));
        lemma_push_varint(push_unknown(values, rs[0]), xs.drop_first());
        assert(values.varint.push(xs[0]) + xs.drop_first() =~= values.varint + xs);
    }
}

/// Appending length-delimited records extends the length-delimited list only.
pub proof fn lemma_push_length_delimited(values: UnknownValues, xs: Seq<Seq<u8>>)
    ensures
        push_records(values, xs.map_values(|x: Seq<u8>| UnknownRecord::LengthDelimited(x)))
            == (UnknownValues { length_delimited: values.length_delimited + xs, ..values }),
    decreases xs.len(),
{
    let rs = xs.map_values(|x: Seq<u8>| UnknownRecord::LengthDelimited(x));
    if xs.len() == 0 {
        assert(values.length_delimited + xs =~= values.length_delimited);
    } else {
        assert(rs.drop_first() =~= xs.drop_first().map_values(|x: Seq<u8>| UnknownRecord::LengthDelimited(x)));
        lemma_push_length_delimited(push_unknown(values, rs[0]), xs.drop_first());
        assert(values.length_delimited.push(xs[0]) + xs.drop_first() =~= values.length_delimited + xs);
    }
}

/// Appending the records of `v`, in the order they are written, to no values
/// gives `v` back.
pub proof fn lemma_push_values_records(v: UnknownValues)
    ensures
        push_records(no_unknown_values(), values_records(v)) == v,
{
    let a = v.fixed32.map_values(|x: u32| UnknownRecord::Fixed32(x));
    let b = v.fixed64.map_values(|x: u64| UnknownRecord::Fixed64(x));
    let c = v.varint.map_values(|x: u64| UnknownRecord::Varint(x));
    let d = v.length_delimited.map_values(|x: Seq<u8>| UnknownRecord::LengthDelimited(x));
    let w0 = no_unknown_values();
    lemma_push_records_append(w0, a + b + c, d);
    lemma_push_records_append(w0, a + b, c);
    lemma_push_records_append(w0, a, b);
    lemma_push_fixed32(w0, v.fixed32);
    let w1 = push_records(w0, a);
    lemma_push_fixed64(w1, v.fixed64);
    let w2 = push_records(w1, b);
    lemma_push_varint(w2, v.varint);
    let w3 = push_records(w2, c);
    lemma_push_length_delimited(w3, v.length_delimited);
    assert(Seq::<u32>::empty() + v.fixed32 =~= v.fixed32);
    assert(Seq::<u64>::empty() + v.fixed64 =~= v.fixed64);
    assert(Seq::<u64>::empty() + v.varint =~= v.varint);
    assert(Seq::<Seq<u8>>::empty() + v.length_delimited =~= v.length_delimited);
}

/// Adding records of one field number changes only that field's values,
/// which get the records appended.
pub proof fn lemma_add_records(fields: Map<u32, UnknownValues>, number: u32, records: Seq<UnknownRecord>)
    requires
        records.len() > 0,
    ensures
        add_records(fields, number, records) == fields.insert(
            number,
            push_records(if fields.contains_key(number) { fields[number] } else { no_unknown_values() }, records),
        ),
    decreases records.len(),
{
    let current = if fields.contains_key(number) { fields[number] } else { no_unknown_values() };
    let next = add_unknown(fields, number, records[0]);
    let rest = records.drop_first();
    assert(add_records(fields, number, records) == add_records(next, number, rest));
    assert(push_records(current, records) == push_records(push_unknown(current, records[0]), rest));
    assert(next.contains_key(number) && next[number] == push_unknown(current, records[0]));
    if records.len() == 1 {
        assert(rest.len() == 0);
        assert(add_records(next, number, rest) == next);
        assert(push_records(push_unknown(current, records[0]), rest) == push_unknown(current, records[0]));
    } else {
        lemma_add_records(next, number, rest);
        assert(next.insert(number, push_records(next[number], records.drop_first())) =~= fields.insert(
            number,
            push_records(current, records),
        ));
    }
}

/// What the values of field `number` must be to read back as themselves
/// once written: a number that a tag can carry, at least one value, every
/// length-delimited value shorter than 4 GiB, and, for field 1, no varint
/// (which the status message reads as its status).
pub open spec fn readable_values(number: u32, values: UnknownValues) -> bool {
    &&& 0 < number <= max_field_number()
    &&& values_records(values).len() > 0
    &&& forall|j: int| 0 <= j < values.length_delimited.len() ==> #[trigger] values.length_delimited[j].len() < 0x1_0000_0000
    &&& number == 1 ==> values.varint.len() == 0
}

/// Unknown fields that read back as themselves once written.
pub open spec fn unknown_reads_back(fields: Map<u32, UnknownValues>) -> bool {
    forall|k: u32| fields.contains_key(k) ==> readable_values(k, #[trigger] fields[k])
}

/// Which kind of value stands at each place of `values_records`.
pub proof fn lemma_values_records_kinds(values: UnknownValues, i: int)
    requires
        0 <= i < values_records(values).len(),
    ensures
        values_records(values)[i] is Varint ==> values.varint.len() > 0,
        values_records(values)[i] matches UnknownRecord::LengthDelimited(b) ==> exists|j: int|
            0 <= j < values.length_delimited.len() && #[trigger] values.length_delimited[j] == b,
{
    let a = values.fixed32.map_values(|x: u32| UnknownRecord::Fixed32(x));
    let b = values.fixed64.map_values(|x: u64| UnknownRecord::Fixed64(x));
    let c = values.varint.map_values(|x: u64| UnknownRecord::Varint(x));
    let d = values.length_delimited.map_values(|x: Seq<u8>| UnknownRecord::LengthDelimited(x));
    let rs = values_records(values);
    assert(rs == a + b + c + d);
    if i < a.len() {
        assert(rs[i] == a[i]);
    } else if i < a.len() + b.len() {
        assert(rs[i] == b[i - a.len()]);
    } else if i < a.len() + b.len() + c.len() {
        assert(rs[i] == c[i - a.len() - b.len()]);
    } else {
        let j = i - a.len() - b.len() - c.len();
        assert(rs[i] == d[j]);
    }
}

/// Unknown fields that read back can be written: their field numbers fit in
/// a tag and their length-delimited values are shorter than 4 GiB.
pub proof fn lemma_reads_back_writable(fields: Map<u32, UnknownValues>)
    requires
        unknown_reads_back(fields),
    ensures
        valid_field_numbers(fields),
        unknown_values_fit(fields),
{
    assert forall|k: u32| fields.contains_key(k) implies 0 < k <= max_field_number() by {
        assert(readable_values(k, fields[k]));
    }
    assert forall|k: u32, i: int| fields.contains_key(k) && 0 <= i < fields[k].length_delimited.len()
        implies #[trigger] fields[k].length_delimited[i].len() < 0x1_0000_0000 by {
        assert(readable_values(k, fields[k]));
    }
}

/// A value that can be read from `s` is read the same when more input follows.
pub proof fn lemma_value_read_prefix(wire_type: nat, s: Seq<u8>, t: Seq<u8>)
    requires
        unknown_value_read(wire_type, s) is Some,
    ensures
        unknown_value_read(wire_type, s + t) == unknown_value_read(wire_type, s),
        unknown_value_read(wire_type, s) matches Some((_, m)) ==> m <= s.len(),
{
    if wire_type == 0 {
        lemma_varint_decode_prefix(s, t, 0, 10, 1);
        lemma_varint_decode_bounds(s, 0, 10, 1);
    } else if wire_type == 1 {
        assert((s + t).take(8) =~= s.take(8));
    } else if wire_type == 2 {
        lemma_varint_decode_prefix(s, t, 0, 5, 15);
        lemma_varint_decode_bounds(s, 0, 5, 15);
        let (len, n) = varint32_decode(s).unwrap();
        assert((s + t).subrange(n as int, (n + len) as int) =~= s.subrange(n as int, (n + len) as int));
    } else if wire_type == 5 {
        assert((s + t).take(4) =~= s.take(4));
    }
}

/// A group that can be skipped in `s` is skipped the same when more input
/// follows, and ends within `s`.
pub proof fn lemma_group_skip_prefix(s: Seq<u8>, t: Seq<u8>)
    requires
        group_skip(s) is Some,
    ensures
        group_skip(s + t) == group_skip(s),
        group_skip(s).unwrap() <= s.len(),
    decreases s.len(),
{
    lemma_varint_decode_prefix(s, t, 0, 5, 15);
    let (tag, n) = varint32_decode(s).unwrap();
    if tag % 8 != 4 {
        let after = s.skip(n as int);
        assert((s + t).skip(n as int) =~= after + t);
        lemma_value_read_prefix(tag % 8, after, t);
        let m = unknown_value_read(tag % 8, after).unwrap().1;
        let next = s.skip((n + m) as int);
        assert((s + t).skip((n + m) as int) =~= next + t);
        lemma_group_skip_prefix(next, t);
    }
}

/// An unknown field that can be read from `s` is read the same when more
/// input follows, and ends within `s`.
pub proof fn lemma_unknown_field_read_prefix(tag: u32, s: Seq<u8>, t: Seq<u8>)
    requires
        unknown_field_read(tag, s) is Some,
    ensures
        unknown_field_read(tag, s + t) == unknown_field_read(tag, s),
        unknown_field_read(tag, s).unwrap().0 <= s.len(),
{
    if tag % 8 == 3 {
        lemma_group_skip_prefix(s, t);
    } else {
        lemma_value_read_prefix((tag % 8) as nat, s, t);
    }
}

} // verus!

use vstd::prelude::*;
use vstd::std_specs::cmp::PartialEqSpec;

use crate::runtime::{
    clear_special_fields, clone_special_fields, int32_size, new_special_fields,
    file_descriptor_proto_of, parse_file_descriptor_proto, parses_as_file_descriptor_proto, read_int32, read_tag, read_unknown,
    set_cached_size, special_fields_eq, special_fields_equal, unknown_field_numbers,
    unknown_fields_encoded_len, unknown_fields_of, unknown_fields_size, write_enum,
    write_unknown_fields,
};
use crate::unknown::{
    add_records, add_unknown, is_field_order, lemma_add_records, lemma_push_values_records,
    lemma_record_bytes_split, lemma_unknown_field_read_prefix, lemma_value_read_of_record,
    lemma_values_records_kinds, no_unknown_fields, no_unknown_values, push_unknown, readable_values, record_bytes, record_payload,
    record_unknown, record_wire_type, records_bytes, unknown_field_read, unknown_fields_bytes,
    unknown_reads_back, unknown_values_fit, valid_field_numbers, values_records, UnknownRecord,
    UnknownValues,
};
use crate::wire::{
    as_signed64, int32_field_bytes, int32_read, lemma_varint32_room, lemma_varint64_room,
    lemma_varint_decode_bounds, lemma_varint_decode_encode, lemma_varint_decode_value_bound, lemma_varint_decode_prefix,
    lemma_varint_encode_len, lemma_varint_encode_len_top, max_field_number, sign_extended, tag_read, varint_encode, varint_room,
};

verus! {

/// The state that a status request announces.
#[derive(Clone, Copy, PartialEq, Eq, Debug, Hash, Structural)]
pub enum StatusNotification {
    UNKNOWN,
    Running,
    Reload,
    Exit,
}

/// The number under which a variant goes on the wire.
pub open spec fn notification_number(e: StatusNotification) -> int {
    match e {
        StatusNotification::UNKNOWN => 0,
        StatusNotification::Running => 1,
        StatusNotification::Reload => 2,
        StatusNotification::Exit => 3,
    }
}

/// The variant that a wire number names, if any.
pub open spec fn notification_of(v: int) -> Option<StatusNotification> {
    if v == 0 {
        Some(StatusNotification::UNKNOWN)
    } else if v == 1 {
        Some(StatusNotification::Running)
    } else if v == 2 {
        Some(StatusNotification::Reload)
    } else if v == 3 {
        Some(StatusNotification::Exit)
    } else {
        None
    }
}

impl StatusNotification {
    /// The wire number of this variant.
    pub fn value(&self) -> (r: i32)
        ensures
            r == notification_number(*self),
    {
        match self {
            StatusNotification::UNKNOWN => 0,
            StatusNotification::Running => 1,
            StatusNotification::Reload => 2,
            StatusNotification::Exit => 3,
        }
    }

    /// The variant with wire number `value`, or `None` for a number that no
    /// variant has.
    pub fn from_i32(value: i32) -> (r: Option<StatusNotification>)
        ensures
            r == notification_of(value as int),
    {
        match value {
            0 => Some(StatusNotification::UNKNOWN),
            1 => Some(StatusNotification::Running),
            2 => Some(StatusNotification::Reload),
            3 => Some(StatusNotification::Exit),
            _ => None,
        }
    }

    /// Every variant, in the order of their wire numbers.
    pub fn values() -> (r: Vec<StatusNotification>)
        ensures
            r.len() == 4,
            forall|i: int| 0 <= i < 4 ==> notification_number(#[trigger] r@[i]) == i,
    {
        vec![
            StatusNotification::UNKNOWN,
            StatusNotification::Running,
            StatusNotification::Reload,
            StatusNotification::Exit,
        ]
    }
}

impl Default for StatusNotification {
    fn default() -> (r: StatusNotification)
        ensures
            r == StatusNotification::UNKNOWN,
    {
        StatusNotification::UNKNOWN
    }
}

/// The wire number of a variant names that variant again, and a number that
/// names a variant is that variant's number.
pub proof fn law_notification_numbers(e: StatusNotification, v: int)
    ensures
        notification_of(notification_number(e)) == Some(e),
        notification_of(v) matches Some(f) ==> notification_number(f) == v,
        notification_of(v) is Some <==> 0 <= v < 4,
{
}

/// Why reading or writing a status request failed.
#[derive(Clone, Copy, PartialEq, Eq, Debug, Hash, Structural)]
pub enum ProtocolError {
    /// The input is not a well-formed encoding.
    Malformed,
    /// The output stream refused the bytes.
    WriteFailed,
    /// The embedded file descriptor did not parse.
    Descriptor,
}

/// A request that announces a change of the proxy's status.
///
/// `status` holds the wire number of the announced state, which may be a
/// number that no `StatusNotification` has (it is kept as read). The special
/// fields keep the fields that this message does not know.
pub struct StatusRequest {
    pub status: i32,
    pub special_fields: protobuf::SpecialFields,
}

/// The field number of `status`.
pub open spec fn status_field_number() -> nat {
    1
}

/// The bytes that the `status` field takes on the wire: nothing for the
/// default value 0, else its tag and value.
pub open spec fn status_field_bytes(status: int) -> Seq<u8> {
    if status == 0 {
        Seq::empty()
    } else {
        int32_field_bytes(status_field_number(), status)
    }
}

/// What merging the bytes `rest` into a message with this status and these
/// unknown fields yields, field by field as the protobuf reader goes: the new
/// status, the new unknown fields, and whether the whole input was read. A
/// later `status` field overrides an earlier one; any other field is kept as
/// an unknown field. On a failure the fields read before it stay merged.
pub open spec fn merge_outcome(status: int, unknown: Map<u32, UnknownValues>, rest: Seq<u8>) -> (int, Map<u32, UnknownValues>, bool)
    decreases rest.len(),
{
    match tag_read(rest) {
        None => (status, unknown, false),
        Some(None) => (status, unknown, true),
        Some(Some((tag, n))) => {
            if 0 < n <= rest.len() {
                let after = rest.skip(n as int);
                if tag == 8 {
                    match int32_read(after) {
                        Some((v, m)) => {
                            if m <= after.len() {
                                merge_outcome(v, unknown, after.skip(m as int))
                            } else {
                                (status, unknown, false)
                            }
                        },
                        None => (status, unknown, false),
                    }
                } else if tag < 0x1_0000_0000 {
                    match unknown_field_read(tag as u32, after) {
                        Some((m, read)) => {
                            if m <= after.len() {
                                merge_outcome(status, record_unknown(unknown, tag as u32, read), after.skip(m as int))
                            } else {
                                (status, unknown, false)
                            }
                        },
                        None => (status, unknown, false),
                    }
                } else {
                    (status, unknown, false)
                }
            } else {
                (status, unknown, false)
            }
        },
    }
}

impl StatusRequest {
    /// The unknown fields that this message keeps.
    pub open spec fn unknown(&self) -> Map<u32, UnknownValues> {
        unknown_fields_of(self.special_fields)
    }

    /// The number of bytes this message takes on the wire.
    pub open spec fn encoded_len(&self) -> nat {
        status_field_bytes(self.status as int).len() + unknown_fields_encoded_len(self.unknown())
    }

    /// The announced state, or `None` when the wire number names none.
    pub fn status_enum(&self) -> (r: Option<StatusNotification>)
        ensures
            r == notification_of(self.status as int),
    {
        StatusNotification::from_i32(self.status)
    }

    /// Announces `state`.
    pub fn set_status(&mut self, state: StatusNotification)
        ensures
            final(self).status as int == notification_number(state),
            final(self).unknown() == old(self).unknown(),
    {
        self.status = state.value();
    }

    /// Every status request is complete: it has no required field.
    pub fn is_initialized(&self) -> (r: bool)
        ensures
            r,
    {
        true
    }

    /// The special fields, which keep the unknown fields.
    pub fn special_fields(&self) -> (r: &protobuf::SpecialFields)
        ensures
            *r == self.special_fields,
    {
        &self.special_fields
    }

    /// The special fields, to change them in place.
    pub fn mut_special_fields(&mut self) -> (r: &mut protobuf::SpecialFields)
        ensures
            *r == old(self).special_fields,
            final(self).special_fields == *final(r),
            final(self).status == old(self).status,
    {
        &mut self.special_fields
    }

    /// A message with the default status and no unknown field.
    pub fn new() -> (r: StatusRequest)
        ensures
            r.status == 0,
            r.unknown() == no_unknown_fields(),
    {
        StatusRequest { status: 0, special_fields: new_special_fields() }
    }

    /// Merges the encoded message in `bytes` into this one, as the protobuf
    /// reader does: each `status` field read replaces the status, every other
    /// field is kept among the unknown fields. Fails exactly when the input is
    /// malformed, keeping what was merged before the fault.
    pub fn merge_from_bytes(&mut self, bytes: &[u8]) -> (res: Result<(), ProtocolError>)
        ensures
            ({
                let (s, u, ok) = merge_outcome(old(self).status as int, old(self).unknown(), bytes@);
                &&& final(self).status as int == s
                &&& final(self).unknown() == u
                &&& (res is Ok <==> ok)
                &&& (res matches Err(e) ==> e == ProtocolError::Malformed)
            }),
            valid_field_numbers(old(self).unknown()) ==> valid_field_numbers(final(self).unknown()),
            unknown_reads_back(old(self).unknown()) ==> unknown_reads_back(final(self).unknown()),
    {
        let ghost outcome = merge_outcome(self.status as int, self.unknown(), bytes@);
        proof {
            if unknown_reads_back(self.unknown()) {
                law_merge_keeps_reads_back(self.status as int, self.unknown(), bytes@);
            }
        }
        let mut pos: usize = 0;
        assert(bytes@.skip(0) =~= bytes@);
        loop
            invariant
                pos <= bytes.len(),
                outcome == merge_outcome(old(self).status as int, old(self).unknown(), bytes@),
                unknown_reads_back(old(self).unknown()) ==> unknown_reads_back(outcome.1),
                valid_field_numbers(old(self).unknown()) ==> valid_field_numbers(self.unknown()),
                merge_outcome(self.status as int, self.unknown(), bytes@.skip(pos as int)) == outcome,
            decreases bytes.len() - pos,
        {
            let rest = bytes.split_at(pos).1;
            assert(rest@ =~= bytes@.skip(pos as int));
            match read_tag(rest) {
                Err(_) => {
                    return Err(ProtocolError::Malformed);
                },
                Ok(None) => {
                    return Ok(());
                },
                Ok(Some((tag, n))) => {
                    proof {
                        lemma_varint_decode_bounds(rest@, 0, 5, 15);
                    }
                    let after = rest.split_at(n).1;
                    assert(after@ =~= rest@.skip(n as int));
                    if tag == 8 {
                        match read_int32(after) {
                            Err(_) => {
                                return Err(ProtocolError::Malformed);
                            },
                            Ok((v, m)) => {
                                proof {
                                    lemma_varint_decode_bounds(after@, 0, 10, 1);
                                }
                                assert(after@.skip(m as int) =~= bytes@.skip(pos + n + m));
                                self.status = v;
                                pos = pos + n + m;
                            },
                        }
                    } else {
                        match read_unknown(tag, after, &mut self.special_fields) {
                            Err(_) => {
                                return Err(ProtocolError::Malformed);
                            },
                            Ok(m) => {
                                proof {
                                    lemma_unknown_field_read_prefix(tag, after@, Seq::empty());
                                    assert(after@ + Seq::<u8>::empty() =~= after@);
                                }
                                assert(after@.skip(m as int) =~= bytes@.skip(pos + n + m));
                                assert(0 < tag / 8 <= max_field_number());
                                pos = pos + n + m;
                            },
                        }
                    }
                },
            }
        }
    }

    /// The number of bytes this message takes on the wire, which is also
    /// recorded in the message's size cache. The sum wraps around at 2^64 as
    /// the runtime's does; a message that fits in memory never gets there.
    pub fn compute_size(&self) -> (r: u64)
        ensures
            r as nat == self.encoded_len() % 0x1_0000_0000_0000_0000,
            self.encoded_len() < 0x1_0000_0000_0000_0000 ==> r as nat == self.encoded_len(),
            self.unknown() == no_unknown_fields() ==> r as nat == status_field_bytes(self.status as int).len(),
            unknown_values_fit(self.unknown()) ==> forall|order: Seq<u32>|
                is_field_order(order, self.unknown()) ==> r as nat == (status_field_bytes(self.status as int)
                    + #[trigger] unknown_fields_bytes(order, self.unknown())).len() % 0x1_0000_0000_0000_0000,
    {
        let mut my_size: u64 = 0;
        if self.status != 0 {
            my_size = int32_size(1, self.status);
        }
        let unknown_size = unknown_fields_size(&self.special_fields);
        my_size = my_size.wrapping_add(unknown_size);
        set_cached_size(&self.special_fields, my_size as u32);
        my_size
    }

    /// Appends the encoded message to `out`: the status field unless it holds
    /// the default value 0, then the unknown fields.
    pub fn write_to_vec(&self, out: &mut Vec<u8>) -> (res: Result<(), ProtocolError>)
        requires
            valid_field_numbers(self.unknown()),
        ensures
            res is Ok,
            ({
                let head = old(out)@ + status_field_bytes(self.status as int);
                &&& unknown_values_fit(self.unknown()) ==> final(out)@.len() == old(out)@.len() + self.encoded_len()
                &&& unknown_values_fit(self.unknown()) ==> exists|order: Seq<u32>|
                    is_field_order(order, self.unknown())
                        && final(out)@ == head + #[trigger] unknown_fields_bytes(order, self.unknown())
                &&& final(out)@.subrange(0, head.len() as int) == head
                &&& (self.unknown() == no_unknown_fields() ==> final(out)@ == head)
            }),
    {
        let ghost start = out@;
        if self.status != 0 {
            match write_enum(out, 1, self.status) {
                Ok(()) => {},
                Err(_) => {
                    return Err(ProtocolError::WriteFailed);
                },
            }
        }
        let ghost head = out@;
        assert(head == start + status_field_bytes(self.status as int));
        match write_unknown_fields(out, &self.special_fields) {
            Ok(()) => {},
            Err(_) => {
                return Err(ProtocolError::WriteFailed);
            },
        }
        Ok(())
    }

    /// The encoded message.
    pub fn write_to_bytes(&self) -> (res: Result<Vec<u8>, ProtocolError>)
        requires
            valid_field_numbers(self.unknown()),
        ensures
            res is Ok,
            res matches Ok(b) ==> {
                &&& unknown_values_fit(self.unknown()) ==> b@.len() == self.encoded_len()
                &&& unknown_values_fit(self.unknown()) ==> exists|order: Seq<u32>|
                    is_field_order(order, self.unknown())
                        && b@ == status_field_bytes(self.status as int) + #[trigger] unknown_fields_bytes(order, self.unknown())
                &&& b@.subrange(0, status_field_bytes(self.status as int).len() as int) == status_field_bytes(self.status as int)
                &&& (self.unknown() == no_unknown_fields() ==> b@ == status_field_bytes(self.status as int))
            },
            res matches Err(e) ==> e == ProtocolError::WriteFailed,
    {
        let mut out: Vec<u8> = Vec::new();
        assert(Seq::<u8>::empty() + status_field_bytes(self.status as int) =~= status_field_bytes(self.status as int));
        match self.write_to_vec(&mut out) {
            Ok(()) => Ok(out),
            Err(e) => Err(e),
        }
    }

    /// The encoded message, where every unknown field number can be written
    /// as a tag; `None` where one cannot (the protobuf runtime would panic).
    pub fn checked_write_to_bytes(&self) -> (res: Option<Result<Vec<u8>, ProtocolError>>)
        ensures
            res is None <==> !valid_field_numbers(self.unknown()),
            valid_field_numbers(self.unknown()) ==> res matches Some(Ok(_)),
            res matches Some(Ok(b)) ==> {
                &&& unknown_values_fit(self.unknown()) ==> b@.len() == self.encoded_len()
                &&& unknown_values_fit(self.unknown()) ==> exists|order: Seq<u32>|
                    is_field_order(order, self.unknown())
                        && b@ == status_field_bytes(self.status as int) + #[trigger] unknown_fields_bytes(order, self.unknown())
                &&& b@.subrange(0, status_field_bytes(self.status as int).len() as int) == status_field_bytes(self.status as int)
                &&& (self.unknown() == no_unknown_fields() ==> b@ == status_field_bytes(self.status as int))
            },
            res matches Some(Err(e)) ==> e == ProtocolError::WriteFailed,
    {
        if self.unknown_field_numbers_valid() {
            Some(self.write_to_bytes())
        } else {
            None
        }
    }

    /// Reads a message from its encoding: a new message into which `bytes`
    /// are merged; fails exactly when the input is malformed.
    pub fn parse_from_bytes(bytes: &[u8]) -> (res: Result<StatusRequest, ProtocolError>)
        ensures
            ({
                let (s, u, ok) = merge_outcome(0, no_unknown_fields(), bytes@);
                &&& (res is Ok <==> ok)
                &&& (res matches Ok(m) ==> m.status as int == s && m.unknown() == u)
                &&& (res matches Ok(m) ==> valid_field_numbers(m.unknown()))
                &&& (res matches Ok(m) ==> unknown_reads_back(m.unknown()))
                &&& (res matches Err(e) ==> e == ProtocolError::Malformed)
            }),
    {
        let mut m = StatusRequest::new();
        assert(valid_field_numbers(m.unknown()));
        assert(unknown_reads_back(m.unknown()));
        match m.merge_from_bytes(bytes) {
            Ok(()) => Ok(m),
            Err(e) => Err(e),
        }
    }

    /// Whether every field number under which unknown values are kept can be
    /// written as a tag, which `write_to_vec` needs.
    pub fn unknown_field_numbers_valid(&self) -> (r: bool)
        ensures
            r == valid_field_numbers(self.unknown()),
    {
        let numbers = unknown_field_numbers(&self.special_fields);
        let mut i: usize = 0;
        while i < numbers.len()
            invariant
                i <= numbers.len(),
                forall|k: u32| numbers@.contains(k) <==> self.unknown().contains_key(k),
                forall|j: int| 0 <= j < i ==> 0 < #[trigger] numbers@[j] <= max_field_number(),
            decreases numbers.len() - i,
        {
            let k = numbers[i];
            if k == 0 || k > 0x1fff_ffff {
                assert(numbers@.contains(k));
                return false;
            }
            i = i + 1;
        }
        assert forall|k: u32| self.unknown().contains_key(k) implies 0 < k <= max_field_number() by {
            assert(numbers@.contains(k));
        }
        true
    }

    /// Resets the message to the default status and drops its unknown fields.
    pub fn clear(&mut self)
        ensures
            final(self).status == 0,
            final(self).unknown() == no_unknown_fields(),
    {
        self.status = 0;
        clear_special_fields(&mut self.special_fields);
    }
}

impl Clone for StatusRequest {
    fn clone(&self) -> (r: StatusRequest)
        ensures
            r.status == self.status,
            r.unknown() == self.unknown(),
            special_fields_equal(r.special_fields, self.special_fields),
    {
        StatusRequest { status: self.status, special_fields: clone_special_fields(&self.special_fields) }
    }
}

impl PartialEq for StatusRequest {
    fn eq(&self, other: &StatusRequest) -> (r: bool) {
        self.status == other.status && special_fields_eq(&self.special_fields, &other.special_fields)
    }
}

impl vstd::std_specs::cmp::PartialEqSpecImpl for StatusRequest {
    open spec fn obeys_eq_spec() -> bool {
        true
    }

    open spec fn eq_spec(&self, other: &StatusRequest) -> bool {
        self.status == other.status && special_fields_equal(self.special_fields, other.special_fields)
    }
}

/// Two requests compare equal exactly when they announce the same status and
/// their special fields compare equal; requests with different statuses never
/// compare equal, and a request compares equal to itself whenever its special
/// fields do.
pub proof fn law_request_eq(a: StatusRequest, b: StatusRequest)
    ensures
        a.eq_spec(&b) ==> a.status == b.status,
        a.status != b.status ==> !a.eq_spec(&b),
        a.eq_spec(&b) <==> (a.status == b.status && special_fields_equal(a.special_fields, b.special_fields)),
        special_fields_equal(a.special_fields, a.special_fields) ==> a.eq_spec(&a),
{
}

impl Default for StatusRequest {
    fn default() -> (r: StatusRequest)
        ensures
            r.status == 0,
            r.unknown() == no_unknown_fields(),
    {
        StatusRequest::new()
    }
}

/// The serialized `FileDescriptorProto` of `notification.proto`, which
/// declares this message and its enum.
pub open spec fn descriptor_bytes() -> Seq<u8> {
    seq![
        0x0a, 0x12, 0x6e, 0x6f, 0x74, 0x69, 0x66, 0x69, 0x63, 0x61, 0x74, 0x69,
        0x6f, 0x6e, 0x2e, 0x70, 0x72, 0x6f, 0x74, 0x6f, 0x22, 0x3c, 0x0a, 0x0d,
        0x53, 0x74, 0x61, 0x74, 0x75, 0x73, 0x52, 0x65, 0x71, 0x75, 0x65, 0x73,
        0x74, 0x12, 0x2b, 0x0a, 0x06, 0x73, 0x74, 0x61, 0x74, 0x75, 0x73, 0x18,
        0x01, 0x20, 0x01, 0x28, 0x0e, 0x32, 0x13, 0x2e, 0x53, 0x74, 0x61, 0x74,
        0x75, 0x73, 0x4e, 0x6f, 0x74, 0x69, 0x66, 0x69, 0x63, 0x61, 0x74, 0x69,
        0x6f, 0x6e, 0x52, 0x06, 0x73, 0x74, 0x61, 0x74, 0x75, 0x73, 0x2a, 0x44,
        0x0a, 0x12, 0x53, 0x74, 0x61, 0x74, 0x75, 0x73, 0x4e, 0x6f, 0x74, 0x69,
        0x66, 0x69, 0x63, 0x61, 0x74, 0x69, 0x6f, 0x6e, 0x12, 0x0b, 0x0a, 0x07,
        0x55, 0x4e, 0x4b, 0x4e, 0x4f, 0x57, 0x4e, 0x10, 0x00, 0x12, 0x0b, 0x0a,
        0x07, 0x52, 0x75, 0x6e, 0x6e, 0x69, 0x6e, 0x67, 0x10, 0x01, 0x12, 0x0a,
        0x0a, 0x06, 0x52, 0x65, 0x6c, 0x6f, 0x61, 0x64, 0x10, 0x02, 0x12, 0x08,
        0x0a, 0x04, 0x45, 0x78, 0x69, 0x74, 0x10, 0x03, 0x62, 0x06, 0x70, 0x72,
        0x6f, 0x74, 0x6f, 0x33,
    ]
}

/// The bytes of an ASCII text, one per character.
pub open spec fn text_bytes(text: Seq<char>) -> Seq<u8> {
    text.map_values(|c: char| c as u8)
}

/// A length-delimited field of a protobuf message: its tag, the payload's
/// length and the payload.
pub open spec fn delimited_field(field: nat, payload: Seq<u8>) -> Seq<u8> {
    varint_encode(field * 8 + 2) + varint_encode(payload.len()) + payload
}

/// A varint field of a protobuf message: its tag and the value.
pub open spec fn varint_field(field: nat, value: nat) -> Seq<u8> {
    varint_encode(field * 8) + varint_encode(value)
}

/// The name under which a variant is declared.
pub open spec fn notification_name(e: StatusNotification) -> Seq<char> {
    match e {
        StatusNotification::UNKNOWN => "UNKNOWN"@,
        StatusNotification::Running => "Running"@,
        StatusNotification::Reload => "Reload"@,
        StatusNotification::Exit => "Exit"@,
    }
}

/// The `EnumValueDescriptorProto` of a variant: its name (field 1) and its
/// wire number (field 2).
pub open spec fn enum_value_descriptor(e: StatusNotification) -> Seq<u8> {
    delimited_field(1, text_bytes(notification_name(e))) + varint_field(2, notification_number(e) as nat)
}

/// The `EnumDescriptorProto` of `StatusNotification`: its name (field 1) and
/// each variant (field 2) in the order of their wire numbers.
pub open spec fn enum_descriptor() -> Seq<u8> {
    delimited_field(1, text_bytes("StatusNotification"@))
        + delimited_field(2, enum_value_descriptor(StatusNotification::UNKNOWN))
        + delimited_field(2, enum_value_descriptor(StatusNotification::Running))
        + delimited_field(2, enum_value_descriptor(StatusNotification::Reload))
        + delimited_field(2, enum_value_descriptor(StatusNotification::Exit))
}

/// The `FieldDescriptorProto` of `status`: its name (1), number (3), label
/// optional (4, value 1), type enum (5, value 14), type name (6) and JSON
/// name (10).
pub open spec fn status_field_descriptor() -> Seq<u8> {
    delimited_field(1, text_bytes("status"@))
        + varint_field(3, status_field_number())
        + varint_field(4, 1)
        + varint_field(5, 14)
        + delimited_field(6, text_bytes(".StatusNotification"@))
        + delimited_field(10, text_bytes("status"@))
}

/// The `DescriptorProto` of `StatusRequest`: its name (1) and its one field (2).
pub open spec fn message_descriptor() -> Seq<u8> {
    delimited_field(1, text_bytes("StatusRequest"@)) + delimited_field(2, status_field_descriptor())
}

/// The `FileDescriptorProto` of `notification.proto`, field by field: its
/// name (1), the message (4), the enum (5) and the syntax (12).
pub open spec fn file_descriptor_encoding() -> Seq<u8> {
    delimited_field(1, text_bytes("notification.proto"@))
        + delimited_field(4, message_descriptor())
        + delimited_field(5, enum_descriptor())
        + delimited_field(12, text_bytes("proto3"@))
}

/// The embedded descriptor declares `notification.proto` with the message
/// `StatusRequest`, whose one field `status` has the status field's number and
/// the enum's type, and the enum `StatusNotification`, whose every variant is
/// declared under its own name with its own wire number.
pub proof fn law_descriptor_declares()
    ensures
        descriptor_bytes() == file_descriptor_encoding(),
{
    reveal_strlit("UNKNOWN");
    reveal_strlit("Running");
    reveal_strlit("Reload");
    reveal_strlit("Exit");
    reveal_strlit("StatusNotification");
    reveal_strlit("status");
    reveal_strlit(".StatusNotification");
    reveal_strlit("StatusRequest");
    reveal_strlit("notification.proto");
    reveal_strlit("proto3");
    reveal_with_fuel(varint_encode, 2);
    assert(descriptor_bytes() =~= file_descriptor_encoding());
}

/// The serialized file descriptor of `notification.proto`.
pub fn file_descriptor_proto_data() -> (r: Vec<u8>)
    ensures
        r@ == descriptor_bytes(),
        r@ == file_descriptor_encoding(),
{
    let r: Vec<u8> = vec![
        0x0a, 0x12, 0x6e, 0x6f, 0x74, 0x69, 0x66, 0x69, 0x63, 0x61, 0x74, 0x69,
        0x6f, 0x6e, 0x2e, 0x70, 0x72, 0x6f, 0x74, 0x6f, 0x22, 0x3c, 0x0a, 0x0d,
        0x53, 0x74, 0x61, 0x74, 0x75, 0x73, 0x52, 0x65, 0x71, 0x75, 0x65, 0x73,
        0x74, 0x12, 0x2b, 0x0a, 0x06, 0x73, 0x74, 0x61, 0x74, 0x75, 0x73, 0x18,
        0x01, 0x20, 0x01, 0x28, 0x0e, 0x32, 0x13, 0x2e, 0x53, 0x74, 0x61, 0x74,
        0x75, 0x73, 0x4e, 0x6f, 0x74, 0x69, 0x66, 0x69, 0x63, 0x61, 0x74, 0x69,
        0x6f, 0x6e, 0x52, 0x06, 0x73, 0x74, 0x61, 0x74, 0x75, 0x73, 0x2a, 0x44,
        0x0a, 0x12, 0x53, 0x74, 0x61, 0x74, 0x75, 0x73, 0x4e, 0x6f, 0x74, 0x69,
        0x66, 0x69, 0x63, 0x61, 0x74, 0x69, 0x6f, 0x6e, 0x12, 0x0b, 0x0a, 0x07,
        0x55, 0x4e, 0x4b, 0x4e, 0x4f, 0x57, 0x4e, 0x10, 0x00, 0x12, 0x0b, 0x0a,
        0x07, 0x52, 0x75, 0x6e, 0x6e, 0x69, 0x6e, 0x67, 0x10, 0x01, 0x12, 0x0a,
        0x0a, 0x06, 0x52, 0x65, 0x6c, 0x6f, 0x61, 0x64, 0x10, 0x02, 0x12, 0x08,
        0x0a, 0x04, 0x45, 0x78, 0x69, 0x74, 0x10, 0x03, 0x62, 0x06, 0x70, 0x72,
        0x6f, 0x74, 0x6f, 0x33,
    ];
    assert(r@ =~= descriptor_bytes());
    proof {
        law_descriptor_declares();
    }
    r
}

/// The file descriptor of `notification.proto`, parsed by the protobuf
/// runtime from its serialized form.
pub fn file_descriptor_proto() -> (res: Result<protobuf::descriptor::FileDescriptorProto, ProtocolError>)
    ensures
        res is Ok <==> parses_as_file_descriptor_proto(descriptor_bytes()),
        res matches Ok(d) ==> d == file_descriptor_proto_of(descriptor_bytes()),
        res matches Ok(d) ==> d == file_descriptor_proto_of(file_descriptor_encoding()),
        res matches Err(e) ==> e == ProtocolError::Descriptor,
{
    let data = file_descriptor_proto_data();
    match parse_file_descriptor_proto(data.as_slice()) {
        Ok(d) => Ok(d),
        Err(_) => Err(ProtocolError::Descriptor),
    }
}

/// Reading a `status` field at the front of the input sets the status to its
/// value and goes on with what follows.
pub proof fn lemma_merge_status_field(status: int, unknown: Map<u32, UnknownValues>, v: i32, tail: Seq<u8>)
    ensures
        merge_outcome(status, unknown, int32_field_bytes(status_field_number(), v as int) + tail)
            == merge_outcome(v as int, unknown, tail),
{
    let enc = varint_encode(sign_extended(v as int));
    let s = int32_field_bytes(status_field_number(), v as int) + tail;
    assert(varint_encode(8) == seq![8u8]);
    assert(s =~= seq![8u8] + enc + tail);
    assert(tag_read(s) == Some(Some((8nat, 1nat))));
    let after = s.skip(1);
    assert(after =~= enc + tail);
    lemma_varint64_room();
    assert(after.subrange(0, enc.len() as int) =~= enc);
    lemma_varint_decode_encode(sign_extended(v as int), after, 0, 10, 1);
    assert(as_signed64(sign_extended(v as int)) == v as int);
    assert(int32_read(after) == Some((v as int, enc.len())));
    assert(after.skip(enc.len() as int) =~= tail);
}

/// Merging the encoding of a status in front of any further input is
/// setting that status (unless it is the default, which is not written) and
/// merging the rest.
pub proof fn law_merge_written_status(status: int, unknown: Map<u32, UnknownValues>, value: i32, tail: Seq<u8>)
    ensures
        merge_outcome(status, unknown, status_field_bytes(value as int) + tail)
            == merge_outcome(if value != 0 { value as int } else { status }, unknown, tail),
{
    if value != 0 {
        lemma_merge_status_field(status, unknown, value, tail);
    } else {
        assert(status_field_bytes(value as int) + tail =~= tail);
    }
}

/// Reading two encoded messages one after the other is merging them: the
/// status of the second wins unless it is the default, which is not written.
pub proof fn law_concatenation_merges(first: i32, second: i32)
    ensures
        merge_outcome(0, no_unknown_fields(), status_field_bytes(first as int) + status_field_bytes(second as int))
            == (if second != 0 { second as int } else { first as int }, no_unknown_fields(), true),
{
    let b = status_field_bytes(second as int);
    law_merge_written_status(0, no_unknown_fields(), first, b);
    let s1 = if first != 0 { first as int } else { 0 };
    law_merge_written_status(s1, no_unknown_fields(), second, Seq::empty());
    assert(b + Seq::<u8>::empty() =~= b);
}

/// Only the default status takes no bytes; any other takes its one-byte tag
/// and a varint of at most ten bytes, and a negative one, sign-extended to 64
/// bits, takes all ten.
pub proof fn law_status_field_len(status: i32)
    ensures
        status == 0 <==> status_field_bytes(status as int).len() == 0,
        status_field_bytes(status as int).len() <= 11,
        status < 0 ==> status_field_bytes(status as int).len() == 11,
{
    if status != 0 {
        assert(varint_encode(8) == seq![8u8]);
        lemma_varint64_room();
        lemma_varint_encode_len(sign_extended(status as int), varint_room(0, 10, 1), 10);
        if status < 0 {
            lemma_varint_encode_len_top(sign_extended(status as int));
        }
    }
}

/// Reading a tag other than the status tag at the front of the input hands
/// what follows to the unknown-field reader.
pub proof fn lemma_merge_unknown_tag(status: int, unknown: Map<u32, UnknownValues>, tag: u32, rest: Seq<u8>)
    requires
        tag != 8,
    ensures
        merge_outcome(status, unknown, varint_encode(tag as nat) + rest) == (match unknown_field_read(tag, rest) {
            Some((m, read)) => if m <= rest.len() {
                merge_outcome(status, record_unknown(unknown, tag, read), rest.skip(m as int))
            } else {
                (status, unknown, false)
            },
            None => (status, unknown, false),
        }),
{
    let t = varint_encode(tag as nat);
    let s = t + rest;
    lemma_varint32_room();
    assert(t.len() >= 1);
    assert(s.subrange(0, t.len() as int) =~= t);
    lemma_varint_decode_encode(tag as nat, s, 0, 5, 15);
    assert(s.skip(t.len() as int) =~= rest);
}

/// Reading the bytes of one unknown value (of any field but a varint of field
/// 1, which is the status) adds that value to the unknown fields and goes on
/// with what follows.
pub proof fn lemma_merge_record(status: int, unknown: Map<u32, UnknownValues>, number: u32, record: UnknownRecord, tail: Seq<u8>)
    requires
        0 < number <= max_field_number(),
        !(number == 1 && record is Varint),
        record matches UnknownRecord::LengthDelimited(b) ==> b.len() < 0x1_0000_0000,
    ensures
        merge_outcome(status, unknown, record_bytes(number as nat, record) + tail)
            == merge_outcome(status, add_unknown(unknown, number, record), tail),
{
    let wire_type: nat = record_wire_type(record);
    let tag = (number * 8 + wire_type) as u32;
    assert(tag as nat == number * 8 + wire_type);
    let payload = record_payload(record);
    lemma_record_bytes_split(number as nat, record);
    assert(record_bytes(number as nat, record) + tail =~= varint_encode(tag as nat) + (payload + tail));
    lemma_merge_unknown_tag(status, unknown, tag, payload + tail);
    lemma_value_read_of_record(record, tail);
    assert(tag / 8 == number);
    assert(tag % 8 == wire_type);
}

/// Reading the bytes of several values of one field adds them in order.
pub proof fn lemma_merge_records(status: int, unknown: Map<u32, UnknownValues>, number: u32, records: Seq<UnknownRecord>, tail: Seq<u8>)
    requires
        0 < number <= max_field_number(),
        forall|i: int| 0 <= i < records.len() ==> !(number == 1 && #[trigger] records[i] is Varint),
        forall|i: int| 0 <= i < records.len() ==> (#[trigger] records[i] matches UnknownRecord::LengthDelimited(b) ==> b.len() < 0x1_0000_0000),
    ensures
        merge_outcome(status, unknown, records_bytes(number as nat, records) + tail)
            == merge_outcome(status, add_records(unknown, number, records), tail),
    decreases records.len(),
{
    if records.len() == 0 {
        assert(records_bytes(number as nat, records) + tail =~= tail);
    } else {
        let rest = records.drop_first();
        let later = records_bytes(number as nat, rest) + tail;
        assert(records_bytes(number as nat, records) + tail =~= record_bytes(number as nat, records[0]) + later);
        lemma_merge_record(status, unknown, number, records[0], later);
        assert forall|i: int| 0 <= i < rest.len() implies !(number == 1 && #[trigger] rest[i] is Varint) by {
            assert(rest[i] == records[i + 1]);
        }
        assert forall|i: int| 0 <= i < rest.len() implies (#[trigger] rest[i] matches UnknownRecord::LengthDelimited(b) ==> b.len() < 0x1_0000_0000) by {
            assert(rest[i] == records[i + 1]);
        }
        lemma_merge_records(status, add_unknown(unknown, number, records[0]), number, rest, tail);
    }
}

/// Reading the bytes of all values of one field that the unknown fields do
/// not hold yet adds that field with exactly those values.
pub proof fn lemma_merge_field_values(status: int, unknown: Map<u32, UnknownValues>, number: u32, values: UnknownValues, tail: Seq<u8>)
    requires
        readable_values(number, values),
        !unknown.contains_key(number),
    ensures
        merge_outcome(status, unknown, records_bytes(number as nat, values_records(values)) + tail)
            == merge_outcome(status, unknown.insert(number, values), tail),
{
    let rs = values_records(values);
    assert forall|i: int| 0 <= i < rs.len() implies !(number == 1 && #[trigger] rs[i] is Varint) by {
        lemma_values_records_kinds(values, i);
    }
    assert forall|i: int| 0 <= i < rs.len() implies (#[trigger] rs[i] matches UnknownRecord::LengthDelimited(b) ==> b.len() < 0x1_0000_0000) by {
        lemma_values_records_kinds(values, i);
    }
    lemma_merge_records(status, unknown, number, rs, tail);
    lemma_add_records(unknown, number, rs);
    lemma_push_values_records(values);
}

/// Reading the bytes of whole fields, field after field, adds those fields.
pub proof fn lemma_merge_fields(status: int, unknown: Map<u32, UnknownValues>, order: Seq<u32>, fields: Map<u32, UnknownValues>, tail: Seq<u8>)
    requires
        order.no_duplicates(),
        forall|i: int| 0 <= i < order.len() ==> fields.contains_key(#[trigger] order[i]),
        forall|i: int| 0 <= i < order.len() ==> readable_values(#[trigger] order[i], fields[order[i]]),
        forall|i: int| 0 <= i < order.len() ==> !unknown.contains_key(#[trigger] order[i]),
    ensures
        merge_outcome(status, unknown, unknown_fields_bytes(order, fields) + tail)
            == merge_outcome(status, unknown.union_prefer_right(fields.restrict(order.to_set())), tail),
    decreases order.len(),
{
    if order.len() == 0 {
        assert(unknown_fields_bytes(order, fields) + tail =~= tail);
        assert(unknown.union_prefer_right(fields.restrict(order.to_set())) =~= unknown);
    } else {
        let k = order[0];
        let rest = order.drop_first();
        let later = unknown_fields_bytes(rest, fields) + tail;
        assert(unknown_fields_bytes(order, fields) + tail
            =~= records_bytes(k as nat, values_records(fields[k])) + later);
        lemma_merge_field_values(status, unknown, k, fields[k], later);
        let next = unknown.insert(k, fields[k]);
        assert forall|i: int| 0 <= i < rest.len() implies !next.contains_key(#[trigger] rest[i]) by {
            assert(rest[i] == order[i + 1]);
            assert(order[i + 1] != order[0]);
        }
        assert forall|i: int| 0 <= i < rest.len() implies fields.contains_key(#[trigger] rest[i]) by {
            assert(rest[i] == order[i + 1]);
        }
        assert forall|i: int| 0 <= i < rest.len() implies readable_values(#[trigger] rest[i], fields[rest[i]]) by {
            assert(rest[i] == order[i + 1]);
        }
        assert(rest.no_duplicates()) by {
            assert forall|i: int, j: int| 0 <= i < rest.len() && 0 <= j < rest.len() && i != j implies rest[i] != rest[j] by {
                assert(rest[i] == order[i + 1] && rest[j] == order[j + 1]);
            }
        }
        lemma_merge_fields(status, next, rest, fields, tail);
        assert(next.union_prefer_right(fields.restrict(rest.to_set()))
            =~= unknown.union_prefer_right(fields.restrict(order.to_set()))) by {
            assert forall|x: u32| order.to_set().contains(x) <==> (x == k || rest.to_set().contains(x)) by {
                if order.to_set().contains(x) {
                    let i = choose|i: int| 0 <= i < order.len() && order[i] == x;
                    if i > 0 {
                        assert(rest[i - 1] == x);
                    }
                }
                if rest.to_set().contains(x) {
                    let i = choose|i: int| 0 <= i < rest.len() && rest[i] == x;
                    assert(order[i + 1] == x);
                }
            }
        }
    }
}

/// What is written reads back as what was written: parsing the encoding of
/// a message, whatever order the runtime chose for its unknown fields, gives
/// its status and its unknown fields back. The one exception is an unknown
/// field that no encoding can bring back (see `unknown_reads_back`).
pub proof fn law_parse_of_write(status: i32, unknown: Map<u32, UnknownValues>, order: Seq<u32>)
    requires
        is_field_order(order, unknown),
        unknown_reads_back(unknown),
    ensures
        merge_outcome(0, no_unknown_fields(), status_field_bytes(status as int) + unknown_fields_bytes(order, unknown))
            == (status as int, unknown, true),
{
    let rest = unknown_fields_bytes(order, unknown);
    law_merge_written_status(0, no_unknown_fields(), status, rest);
    assert forall|i: int| 0 <= i < order.len() implies unknown.contains_key(#[trigger] order[i]) by {
        assert(order.contains(order[i]));
    }
    assert forall|i: int| 0 <= i < order.len() implies readable_values(#[trigger] order[i], unknown[order[i]]) by {
        assert(order.contains(order[i]));
    }
    lemma_merge_fields(status as int, no_unknown_fields(), order, unknown, Seq::empty());
    assert(rest + Seq::<u8>::empty() =~= rest);
    assert(no_unknown_fields().union_prefer_right(unknown.restrict(order.to_set())) =~= unknown) by {
        assert forall|k: u32| unknown.contains_key(k) implies order.to_set().contains(k) by {
            assert(order.contains(k));
        }
    }
}

/// Keeping the unknown field read after tag `tag` keeps the unknown fields
/// readable: the number is one a tag carries, a length-delimited value's
/// length was read as a 32-bit varint, and a varint of field 1 (tag 8) is
/// never kept.
proof fn lemma_record_keeps_reads_back(unknown: Map<u32, UnknownValues>, tag: u32, after: Seq<u8>)
    requires
        unknown_reads_back(unknown),
        tag != 8,
        unknown_field_read(tag, after) is Some,
    ensures
        unknown_reads_back(record_unknown(unknown, tag, unknown_field_read(tag, after).unwrap().1)),
{
    let (_, read) = unknown_field_read(tag, after).unwrap();
    if let Some(r) = read {
        let number = tag / 8;
        let current = if unknown.contains_key(number) { unknown[number] } else { no_unknown_values() };
        let pushed = push_unknown(current, r);
        let next = record_unknown(unknown, tag, read);
        assert(next == unknown.insert(number, pushed));
        if unknown.contains_key(number) {
            assert(readable_values(number, unknown[number]));
        }
        if tag % 8 == 2 {
            lemma_varint_decode_value_bound(after, 0, 5, 15);
            lemma_varint32_room();
        }
        assert(values_records(pushed).len() > 0);
        assert forall|j: int| 0 <= j < pushed.length_delimited.len()
            implies #[trigger] pushed.length_delimited[j].len() < 0x1_0000_0000 by {
            if j < current.length_delimited.len() {
                assert(pushed.length_delimited[j] == current.length_delimited[j]);
            }
        }
        assert(readable_values(number, pushed));
        assert forall|k: u32| next.contains_key(k) implies readable_values(k, #[trigger] next[k]) by {
            if k != number {
                assert(unknown.contains_key(k));
            }
        }
    }
}

/// Merging keeps unknown fields that read back as themselves: whatever the
/// input, and whether or not it is well formed, every unknown field that a
/// merge adds can be written and read back. So every parsed message can.
pub proof fn law_merge_keeps_reads_back(status: int, unknown: Map<u32, UnknownValues>, rest: Seq<u8>)
    requires
        unknown_reads_back(unknown),
    ensures
        unknown_reads_back(merge_outcome(status, unknown, rest).1),
    decreases rest.len(),
{
    if let Some(Some((tag, n))) = tag_read(rest) {
        if 0 < n <= rest.len() {
            let after = rest.skip(n as int);
            if tag == 8 {
                if let Some((v, m)) = int32_read(after) {
                    if m <= after.len() {
                        law_merge_keeps_reads_back(v, unknown, after.skip(m as int));
                    }
                }
            } else if tag < 0x1_0000_0000 {
                if let Some((m, read)) = unknown_field_read(tag as u32, after) {
                    if m <= after.len() {
                        lemma_record_keeps_reads_back(unknown, tag as u32, after);
                        law_merge_keeps_reads_back(status, record_unknown(unknown, tag as u32, read), after.skip(m as int));
                    }
                }
            }
        }
    }
}

/// Merging two encodings one after the other is merging the first, then the
/// second into the result: for any input `first` that merges without a fault,
/// and whatever follows it.
pub proof fn law_merge_concatenation(status: int, unknown: Map<u32, UnknownValues>, first: Seq<u8>, second: Seq<u8>)
    requires
        merge_outcome(status, unknown, first).2,
    ensures
        merge_outcome(status, unknown, first + second) == ({
            let (s, u, _) = merge_outcome(status, unknown, first);
            merge_outcome(s, u, second)
        }),
    decreases first.len(),
{
    if first.len() == 0 {
        assert(first + second =~= second);
    } else {
        let (tag, n) = tag_read(first).unwrap().unwrap();
        lemma_varint_decode_prefix(first, second, 0, 5, 15);
        let whole = first + second;
        assert(tag_read(whole) == tag_read(first));
        let after = first.skip(n as int);
        assert(whole.skip(n as int) =~= after + second);
        if tag == 8 {
            lemma_varint_decode_prefix(after, second, 0, 10, 1);
            let (v, m) = int32_read(after).unwrap();
            assert(int32_read(after + second) == int32_read(after));
            assert((after + second).skip(m as int) =~= after.skip(m as int) + second);
            law_merge_concatenation(v, unknown, after.skip(m as int), second);
        } else {
            lemma_unknown_field_read_prefix(tag as u32, after, second);
            let (m, read) = unknown_field_read(tag as u32, after).unwrap();
            assert((after + second).skip(m as int) =~= after.skip(m as int) + second);
            law_merge_concatenation(status, record_unknown(unknown, tag as u32, read), after.skip(m as int), second);
        }
    }
}

/// Merging no bytes changes nothing and succeeds.
pub proof fn lemma_merge_empty(status: int, unknown: Map<u32, UnknownValues>)
    ensures
        merge_outcome(status, unknown, Seq::empty()) == (status, unknown, true),
{
}

} // verus!

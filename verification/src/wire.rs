//! The protobuf wire format as far as the status message uses it: base-128
//! varints, field tags and `int32` fields, stated as spec functions, and the
//! calls into the `protobuf` runtime that read and write them.

use vstd::prelude::*;

verus! {

/// The base-128 varint that the protobuf runtime writes for `v`: seven bits
/// per byte, least significant group first, the high bit set on every byte
/// but the last.
pub open spec fn varint_encode(v: nat) -> Seq<u8>
    decreases v,
{
    if v < 128 {
        seq![v as u8]
    } else {
        seq![(v % 128 + 128) as u8] + varint_encode(v / 128)
    }
}

/// How the protobuf runtime reads a varint that starts at index `i` of `s`:
/// at most `max_len` bytes are read, and the byte in the last allowed place
/// may be at most `last_max`. Gives the value and the index just past the
/// varint, or `None` where the reader fails (input ends first, or the last
/// allowed byte is too large).
pub open spec fn varint_decode_at(s: Seq<u8>, i: nat, max_len: nat, last_max: nat) -> Option<(nat, nat)>
    decreases max_len - i,
{
    if i >= s.len() || i >= max_len {
        None
    } else if i + 1 == max_len {
        if s[i as int] > last_max {
            None
        } else {
            Some((s[i as int] as nat, i + 1))
        }
    } else if s[i as int] < 128 {
        Some((s[i as int] as nat, i + 1))
    } else {
        match varint_decode_at(s, i + 1, max_len, last_max) {
            Some((v, e)) => Some(((s[i as int] - 128) as nat + 128 * v, e)),
            None => None,
        }
    }
}

/// A 64-bit varint at the front of `s`: at most ten bytes, the tenth at most 1.
pub open spec fn varint64_decode(s: Seq<u8>) -> Option<(nat, nat)> {
    varint_decode_at(s, 0, 10, 1)
}

/// A 32-bit varint at the front of `s`: at most five bytes, the fifth at most 15.
pub open spec fn varint32_decode(s: Seq<u8>) -> Option<(nat, nat)> {
    varint_decode_at(s, 0, 5, 15)
}

/// Reading a field tag at the front of `rest`: `Some(None)` at the end of the
/// input, `Some(Some((tag, n)))` for a tag of `n` bytes, `None` for a
/// malformed tag.
pub open spec fn tag_read(rest: Seq<u8>) -> Option<Option<(nat, nat)>> {
    if rest.len() == 0 {
        Some(None)
    } else {
        match varint32_decode(rest) {
            Some((t, n)) => Some(Some((t, n))),
            None => None,
        }
    }
}

/// The two's-complement value of a 64-bit word.
pub open spec fn as_signed64(u: nat) -> int {
    if u >= 0x8000_0000_0000_0000 {
        u - 0x1_0000_0000_0000_0000
    } else {
        u as int
    }
}

/// Reading an `int32` value at the front of `rest`: a 64-bit varint whose
/// signed value must fit in 32 bits.
pub open spec fn int32_read(rest: Seq<u8>) -> Option<(int, nat)> {
    match varint64_decode(rest) {
        Some((u, n)) => {
            let v = as_signed64(u);
            if -0x8000_0000 <= v && v < 0x8000_0000 {
                Some((v, n))
            } else {
                None
            }
        },
        None => None,
    }
}

/// The 64-bit word that an `int32` is widened to before it is written:
/// negative values are sign-extended.
pub open spec fn sign_extended(v: int) -> nat {
    if v < 0 {
        (v + 0x1_0000_0000_0000_0000) as nat
    } else {
        v as nat
    }
}

/// The tag of a varint field with number `field`.
pub open spec fn varint_tag(field: nat) -> nat {
    field * 8
}

/// The bytes of an `int32` (or enum) field: its tag, then the sign-extended value.
pub open spec fn int32_field_bytes(field: nat, v: int) -> Seq<u8> {
    varint_encode(varint_tag(field)) + varint_encode(sign_extended(v))
}

/// The largest field number that a tag can carry.
pub open spec fn max_field_number() -> nat {
    0x1fff_ffff
}

/// The values below which a varint that starts at index `i` can still be read
/// back under the limits `max_len` and `last_max`.
pub open spec fn varint_room(i: nat, max_len: nat, last_max: nat) -> nat
    decreases max_len - i,
{
    if i + 1 >= max_len {
        last_max + 1
    } else {
        128 * varint_room(i + 1, max_len, last_max)
    }
}

/// A varint read stops inside the input and after its first byte.
pub proof fn lemma_varint_decode_bounds(s: Seq<u8>, i: nat, max_len: nat, last_max: nat)
    ensures
        varint_decode_at(s, i, max_len, last_max) matches Some((v, e)) ==> i < e <= s.len() && e <= max_len,
    decreases max_len - i,
{
    if i < s.len() && i < max_len && i + 1 != max_len && s[i as int] >= 128 {
        lemma_varint_decode_bounds(s, i + 1, max_len, last_max);
    }
}

/// A varint read under the limits `max_len` and `last_max` gives a value
/// below the room those limits leave.
pub proof fn lemma_varint_decode_value_bound(s: Seq<u8>, i: nat, max_len: nat, last_max: nat)
    ensures
        varint_decode_at(s, i, max_len, last_max) matches Some((v, _)) ==> v < varint_room(i, max_len, last_max),
    decreases max_len - i,
{
    if i < s.len() && i < max_len && i + 1 != max_len {
        if s[i as int] < 128 {
            assert(varint_room(i, max_len, last_max) == 128 * varint_room(i + 1, max_len, last_max));
            lemma_varint_room_positive(i + 1, max_len, last_max);
        } else {
            lemma_varint_decode_value_bound(s, i + 1, max_len, last_max);
            if let Some((v, e)) = varint_decode_at(s, i + 1, max_len, last_max) {
                let r = varint_room(i + 1, max_len, last_max);
                assert(varint_room(i, max_len, last_max) == 128 * r);
                let d: int = s[i as int] - 128;
                assert(d + 128 * v < 128 * r) by (nonlinear_arith)
                    requires
                        v < r,
                        0 <= d < 128,
                ;
            }
        }
    }
}

/// The room of a varint is never empty.
pub proof fn lemma_varint_room_positive(i: nat, max_len: nat, last_max: nat)
    ensures
        varint_room(i, max_len, last_max) >= 1,
    decreases max_len - i,
{
    if i + 1 < max_len {
        lemma_varint_room_positive(i + 1, max_len, last_max);
    }
}

/// Reading back the encoding of `v`, wherever it stands in `s`, gives `v` and
/// the index just past it, provided `v` fits the reader's limits.
pub proof fn lemma_varint_decode_encode(v: nat, s: Seq<u8>, i: nat, max_len: nat, last_max: nat)
    requires
        i < max_len,
        last_max < 128,
        v < varint_room(i, max_len, last_max),
        i + varint_encode(v).len() <= s.len(),
        s.subrange(i as int, (i + varint_encode(v).len()) as int) == varint_encode(v),
    ensures
        varint_decode_at(s, i, max_len, last_max) == Some((v, i + varint_encode(v).len())),
    decreases v,
{
    let enc = varint_encode(v);
    assert(s[i as int] == enc[0]) by {
        assert(s.subrange(i as int, (i + enc.len()) as int)[0] == s[i as int]);
    }
    if v < 128 {
        assert(enc.len() == 1);
    } else {
        let rest = varint_encode(v / 128);
        assert(enc == seq![(v % 128 + 128) as u8] + rest);
        if i + 1 >= max_len {
            assert(varint_room(i, max_len, last_max) == last_max + 1);
            assert(false);
        }
        assert(varint_room(i, max_len, last_max) == 128 * varint_room(i + 1, max_len, last_max));
        assert(v / 128 < varint_room(i + 1, max_len, last_max)) by (nonlinear_arith)
            requires
                v < 128 * varint_room(i + 1, max_len, last_max),
        ;
        assert(s.subrange((i + 1) as int, (i + 1 + rest.len()) as int) =~= rest) by {
            assert forall|k: int| 0 <= k < rest.len() implies s.subrange((i + 1) as int, (i + 1 + rest.len()) as int)[k] == rest[k] by {
                assert(s.subrange(i as int, (i + enc.len()) as int)[k + 1] == enc[k + 1]);
            }
        }
        lemma_varint_decode_encode(v / 128, s, i + 1, max_len, last_max);
    }
}

/// A varint that can be read from `s` is read the same when more input follows.
pub proof fn lemma_varint_decode_prefix(s: Seq<u8>, t: Seq<u8>, i: nat, max_len: nat, last_max: nat)
    requires
        varint_decode_at(s, i, max_len, last_max) is Some,
    ensures
        varint_decode_at(s + t, i, max_len, last_max) == varint_decode_at(s, i, max_len, last_max),
    decreases max_len - i,
{
    assert((s + t)[i as int] == s[i as int]);
    if i + 1 != max_len && s[i as int] >= 128 {
        lemma_varint_decode_prefix(s, t, i + 1, max_len, last_max);
    }
}

/// The room of a 64-bit varint is exactly the range of `u64`.
pub proof fn lemma_varint64_room()
    ensures
        varint_room(0, 10, 1) == 0x1_0000_0000_0000_0000,
{
    reveal_with_fuel(varint_room, 11);
}

/// The room of a 32-bit varint is exactly the range of `u32`.
pub proof fn lemma_varint32_room()
    ensures
        varint_room(0, 5, 15) == 0x1_0000_0000,
{
    reveal_with_fuel(varint_room, 6);
}

/// A varint of a 64-bit value takes between one and ten bytes.
pub proof fn lemma_varint_encode_len(v: nat, bound: nat, k: nat)
    requires
        v < bound,
        bound == varint_room((10 - k) as nat, 10, 1),
        k <= 10,
        k >= 1,
    ensures
        1 <= varint_encode(v).len() <= k,
    decreases v,
{
    if v >= 128 {
        if k == 1 {
            assert(varint_room(9, 10, 1) == 2);
            assert(false);
        }
        assert(varint_room((10 - k) as nat, 10, 1) == 128 * varint_room((10 - (k - 1)) as nat, 10, 1));
        assert(v / 128 < varint_room((10 - (k - 1)) as nat, 10, 1)) by (nonlinear_arith)
            requires
                v < 128 * varint_room((10 - (k - 1)) as nat, 10, 1),
        ;
        lemma_varint_encode_len(v / 128, varint_room((10 - (k - 1)) as nat, 10, 1), (k - 1) as nat);
    }
}

/// The least value whose varint takes more than `k` bytes: 128 to the `k`.
pub open spec fn varint_least(k: nat) -> nat
    decreases k,
{
    if k == 0 {
        1
    } else {
        128 * varint_least((k - 1) as nat)
    }
}

/// A value of at least 128 to the `k` takes more than `k` bytes.
pub proof fn lemma_varint_encode_len_least(v: nat, k: nat)
    requires
        v >= varint_least(k),
    ensures
        varint_encode(v).len() > k,
    decreases k,
{
    if k > 0 {
        assert(v / 128 >= varint_least((k - 1) as nat));
        lemma_varint_encode_len_least(v / 128, (k - 1) as nat);
    }
}

/// A value of 2^63 or more, which is what a negative `int32` is sign-extended
/// to, takes the full ten bytes.
pub proof fn lemma_varint_encode_len_top(v: nat)
    requires
        0x8000_0000_0000_0000 <= v < 0x1_0000_0000_0000_0000,
    ensures
        varint_encode(v).len() == 10,
{
    reveal_with_fuel(varint_least, 10);
    assert(varint_least(9) == 0x8000_0000_0000_0000);
    lemma_varint_encode_len_least(v, 9);
    lemma_varint64_room();
    lemma_varint_encode_len(v, varint_room(0, 10, 1), 10);
}

} // verus!

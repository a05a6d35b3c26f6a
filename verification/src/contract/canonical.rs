//! The versioned, length-prefixed, strictly ordered canonical TLV codec.
//!
//! A wire is a fixed prefix followed by fields; each field is a big-endian 16-bit tag, a
//! big-endian 32-bit length and that many value bytes. A decoder reads the fields in the one
//! order it expects and refuses any other tag, an over-long field and trailing bytes.
use vstd::prelude::*;

use crate::contract::error::IngressReject;

verus! {

/// The big-endian encoding of a 16-bit integer.
pub open spec fn be16(x: u16) -> Seq<u8> {
    seq![(x >> 8u16) as u8, x as u8]
}

/// The big-endian encoding of a 32-bit integer.
pub open spec fn be32(x: u32) -> Seq<u8> {
    seq![(x >> 24u32) as u8, (x >> 16u32) as u8, (x >> 8u32) as u8, x as u8]
}

/// The big-endian encoding of a 64-bit integer.
pub open spec fn be64_bytes(x: u64) -> Seq<u8> {
    crate::contract::digest::be64(x)
}

/// One canonical field: tag, value length and value.
pub open spec fn tlv(tag: u16, value: Seq<u8>) -> Seq<u8> {
    be16(tag) + be32(value.len() as u32) + value
}

/// The integer a big-endian 16-bit field at `off` holds.
pub open spec fn read_be16(w: Seq<u8>, off: int) -> int {
    w[off] as int * 256 + w[off + 1] as int
}

/// The integer a big-endian 32-bit field at `off` holds.
pub open spec fn read_be32(w: Seq<u8>, off: int) -> int {
    w[off] as int * 16777216 + w[off + 1] as int * 65536 + w[off + 2] as int * 256 + w[off + 3] as int
}

/// The integer a big-endian 64-bit value holds.
pub open spec fn read_be64(v: Seq<u8>) -> int
    decreases v.len(),
{
    if v.len() == 0 {
        0
    } else {
        read_be64(v.drop_last()) * 256 + v.last() as int
    }
}

/// Whether a field tagged `tag`, at most `max` bytes long, starts at `off` and fits in `w`.
pub open spec fn field_at(w: Seq<u8>, off: int, tag: u16, max: int) -> bool {
    &&& 0 <= off
    &&& off + 6 <= w.len()
    &&& read_be16(w, off) == tag
    &&& read_be32(w, off + 2) <= max
    &&& off + 6 + read_be32(w, off + 2) <= w.len()
}

/// Where the field that starts at `off` ends.
pub open spec fn field_end(w: Seq<u8>, off: int) -> int {
    off + 6 + read_be32(w, off + 2)
}

/// The value of the field that starts at `off`.
pub open spec fn field_value(w: Seq<u8>, off: int) -> Seq<u8> {
    w.subrange(off + 6, field_end(w, off))
}

proof fn lemma_be16_roundtrip(x: u16)
    ensures
        ((x >> 8u16) as u8) as int * 256 + (x as u8) as int == x as int,
{
    let hi = (x >> 8u16) as u8;
    let lo = x as u8;
    assert(hi as u16 * 256u16 + lo as u16 == x) by (bit_vector)
        requires
            hi == (x >> 8u16) as u8,
            lo == x as u8,
    ;
}

pub(crate) proof fn lemma_be32_roundtrip(x: u32)
    ensures
        ((x >> 24u32) as u8) as int * 16777216 + ((x >> 16u32) as u8) as int * 65536 + ((x >> 8u32) as u8) as int
            * 256 + (x as u8) as int == x as int,
{
    let a = (x >> 24u32) as u8;
    let b = (x >> 16u32) as u8;
    let c = (x >> 8u32) as u8;
    let d = x as u8;
    assert(a as u32 * 16777216u32 + b as u32 * 65536u32 + c as u32 * 256u32 + d as u32 == x) by (bit_vector)
        requires
            a == (x >> 24u32) as u8,
            b == (x >> 16u32) as u8,
            c == (x >> 8u32) as u8,
            d == x as u8,
    ;
}

/// A canonical field is read back whole: where `w` holds `tlv(tag, value)` at `off`, a
/// decoder expecting `tag` and allowing `max` bytes reads exactly `value` and stops after it.
pub proof fn lemma_tlv_reads_back(w: Seq<u8>, off: int, tag: u16, value: Seq<u8>, max: int)
    requires
        0 <= off,
        off + 6 + value.len() <= w.len(),
        value.len() <= max,
        value.len() <= u32::MAX,
        w.subrange(off, off + 6 + value.len()) == tlv(tag, value),
    ensures
        field_at(w, off, tag, max),
        field_end(w, off) == off + 6 + value.len(),
        field_value(w, off) == value,
{
    let t = tlv(tag, value);
    assert(w[off] == t[0] && w[off + 1] == t[1] && w[off + 2] == t[2] && w[off + 3] == t[3] && w[off + 4] == t[4]
        && w[off + 5] == t[5]) by {
        assert forall|k: int| 0 <= k < 6 implies w[off + k] == t[k] by {
            assert(w.subrange(off, off + 6 + value.len())[k] == w[off + k]);
        }
    }
    lemma_be16_roundtrip(tag);
    lemma_be32_roundtrip(value.len() as u32);
    assert(field_value(w, off) =~= value) by {
        assert forall|k: int| 0 <= k < value.len() implies field_value(w, off)[k] == value[k] by {
            assert(w.subrange(off, off + 6 + value.len())[6 + k] == w[off + 6 + k]);
            assert(t[6 + k] == value[k]);
        }
    }
}

/// A strict reader of one canonical wire.
pub(crate) struct Decoder<'a> {
    input: &'a [u8],
    offset: usize,
    error: IngressReject,
}

impl<'a> Decoder<'a> {
    /// The wire being read.
    pub(crate) closed spec fn spec_input(&self) -> Seq<u8> {
        self.input@
    }

    /// Where the next field starts.
    pub(crate) closed spec fn spec_offset(&self) -> int {
        self.offset as int
    }

    /// The error every refusal reports.
    pub(crate) closed spec fn spec_error(&self) -> IngressReject {
        self.error
    }

    #[verifier::type_invariant]
    closed spec fn inv(&self) -> bool {
        self.offset <= self.input@.len()
    }

    /// Starts reading `input` after `prefix`, which the wire must begin with.
    pub(crate) fn with_prefix(input: &'a [u8], prefix: &[u8], error: IngressReject) -> (r: Result<Self, IngressReject>)
        ensures
            (prefix@.len() <= input@.len() && input@.take(prefix@.len() as int) == prefix@) <==> r is Ok,
            r is Err ==> r == Err::<Self, IngressReject>(error),
            r matches Ok(d) ==> d.spec_input() == input@ && d.spec_offset() == prefix@.len() && d.spec_error()
                == error,
    {
        if prefix.len() > input.len() {
            return Err(error);
        }
        let mut i: usize = 0;
        while i < prefix.len()
            invariant
                prefix@.len() <= input@.len(),
                0 <= i <= prefix@.len(),
                forall|k: int| 0 <= k < i ==> input@[k] == prefix@[k],
            decreases prefix@.len() - i,
        {
            if input[i] != prefix[i] {
                assert(input@.take(prefix@.len() as int)[i as int] != prefix@[i as int]);
                return Err(error);
            }
            i += 1;
        }
        assert(input@.take(prefix@.len() as int) =~= prefix@);
        Ok(Decoder { input, offset: prefix.len(), error })
    }

    /// Reads the next field, which must carry `expected_tag` and at most `max_length` bytes.
    pub(crate) fn field(&mut self, expected_tag: u16, max_length: usize) -> (r: Result<&'a [u8], IngressReject>)
        ensures
            final(self).spec_input() == old(self).spec_input(),
            final(self).spec_error() == old(self).spec_error(),
            field_at(old(self).spec_input(), old(self).spec_offset(), expected_tag, max_length as int) <==> r is Ok,
            r is Err ==> r == Err::<&'a [u8], IngressReject>(old(self).spec_error()),
            r matches Ok(v) ==> v@ == field_value(old(self).spec_input(), old(self).spec_offset())
                && final(self).spec_offset() == field_end(old(self).spec_input(), old(self).spec_offset()),
    {
        proof {
            use_type_invariant(&*self);
        }
        let ghost w = self.input@;
        let ghost off = self.offset as int;
        let n = self.input.len();
        if n - self.offset < 6 {
            return Err(self.error);
        }
        let o = self.offset;
        let tag = (self.input[o] as u16) * 256 + (self.input[o + 1] as u16);
        if tag != expected_tag {
            return Err(self.error);
        }
        let length = (self.input[o + 2] as usize) * 16777216 + (self.input[o + 3] as usize) * 65536
            + (self.input[o + 4] as usize) * 256 + (self.input[o + 5] as usize);
        if length > max_length {
            return Err(self.error);
        }
        if n - (o + 6) < length {
            return Err(self.error);
        }
        let end = o + 6 + length;
        let value = vstd::slice::slice_subrange(self.input, o + 6, end);
        self.offset = end;
        Ok(value)
    }

    /// Reads the next field as one byte.
    pub(crate) fn field_u8(&mut self, tag: u16) -> (r: Result<u8, IngressReject>)
        ensures
            final(self).spec_input() == old(self).spec_input(),
            final(self).spec_error() == old(self).spec_error(),
            (field_at(old(self).spec_input(), old(self).spec_offset(), tag, 1) && read_be32(
                old(self).spec_input(),
                old(self).spec_offset() + 2,
            ) == 1) <==> r is Ok,
            r is Err ==> r == Err::<u8, IngressReject>(old(self).spec_error()),
            r matches Ok(v) ==> field_value(old(self).spec_input(), old(self).spec_offset()) == seq![v]
                && final(self).spec_offset() == field_end(old(self).spec_input(), old(self).spec_offset()),
    {
        let value = self.field(tag, 1)?;
        if value.len() != 1 {
            return Err(self.error);
        }
        assert(value@ =~= seq![value@[0]]);
        Ok(value[0])
    }

    /// Reads the next field as a big-endian 16-bit integer.
    pub(crate) fn field_u16(&mut self, tag: u16) -> (r: Result<u16, IngressReject>)
        ensures
            final(self).spec_input() == old(self).spec_input(),
            final(self).spec_error() == old(self).spec_error(),
            (field_at(old(self).spec_input(), old(self).spec_offset(), tag, 2) && read_be32(
                old(self).spec_input(),
                old(self).spec_offset() + 2,
            ) == 2) <==> r is Ok,
            r is Err ==> r == Err::<u16, IngressReject>(old(self).spec_error()),
            r matches Ok(v) ==> field_value(old(self).spec_input(), old(self).spec_offset()) == be16(v)
                && final(self).spec_offset() == field_end(old(self).spec_input(), old(self).spec_offset()),
    {
        let value = self.field(tag, 2)?;
        if value.len() != 2 {
            return Err(self.error);
        }
        let hi = value[0];
        let lo = value[1];
        let v = (hi as u16) * 256 + (lo as u16);
        proof {
            assert((v >> 8u16) as u8 == hi && v as u8 == lo) by (bit_vector)
                requires
                    v == hi as u16 * 256 + lo as u16,
            ;
            assert(value@ =~= be16(v));
        }
        Ok(v)
    }

    /// Reads the next field as a big-endian 64-bit integer.
    pub(crate) fn field_u64(&mut self, tag: u16) -> (r: Result<u64, IngressReject>)
        ensures
            final(self).spec_input() == old(self).spec_input(),
            final(self).spec_error() == old(self).spec_error(),
            (field_at(old(self).spec_input(), old(self).spec_offset(), tag, 8) && read_be32(
                old(self).spec_input(),
                old(self).spec_offset() + 2,
            ) == 8) <==> r is Ok,
            r is Err ==> r == Err::<u64, IngressReject>(old(self).spec_error()),
            r matches Ok(v) ==> field_value(old(self).spec_input(), old(self).spec_offset()) == be64_bytes(v)
                && final(self).spec_offset() == field_end(old(self).spec_input(), old(self).spec_offset()),
    {
        let value = self.field(tag, 8)?;
        if value.len() != 8 {
            return Err(self.error);
        }
        let b0 = value[0];
        let b1 = value[1];
        let b2 = value[2];
        let b3 = value[3];
        let b4 = value[4];
        let b5 = value[5];
        let b6 = value[6];
        let b7 = value[7];
        let v: u64 = ((b0 as u64) << 56u64) | ((b1 as u64) << 48u64) | ((b2 as u64) << 40u64) | ((b3 as u64) << 32u64)
            | ((b4 as u64) << 24u64) | ((b5 as u64) << 16u64) | ((b6 as u64) << 8u64) | (b7 as u64);
        proof {
            assert((v >> 56u64) as u8 == b0 && (v >> 48u64) as u8 == b1 && (v >> 40u64) as u8 == b2 && (v
                >> 32u64) as u8 == b3 && (v >> 24u64) as u8 == b4 && (v >> 16u64) as u8 == b5 && (v >> 8u64) as u8
                == b6 && v as u8 == b7) by (bit_vector)
                requires
                    v == ((b0 as u64) << 56u64) | ((b1 as u64) << 48u64) | ((b2 as u64) << 40u64) | ((b3 as u64)
                        << 32u64) | ((b4 as u64) << 24u64) | ((b5 as u64) << 16u64) | ((b6 as u64) << 8u64) | (
                    b7 as u64),
            ;
            assert(value@ =~= be64_bytes(v));
        }
        Ok(v)
    }

    /// Ends reading; the wire must hold nothing after the last field.
    pub(crate) fn finish(self) -> (r: Result<(), IngressReject>)
        ensures
            (self.spec_offset() == self.spec_input().len()) <==> r is Ok,
            r is Err ==> r == Err::<(), IngressReject>(self.spec_error()),
    {
        if self.offset == self.input.len() {
            Ok(())
        } else {
            Err(self.error)
        }
    }
}

/// Copies a field of exactly 32 bytes.
pub(crate) fn fixed32(value: &[u8], error: IngressReject) -> (r: Result<[u8; 32], IngressReject>)
    ensures
        (value@.len() == 32) <==> r is Ok,
        r is Err ==> r == Err::<[u8; 32], IngressReject>(error),
        r matches Ok(a) ==> a@ == value@,
{
    if value.len() != 32 {
        return Err(error);
    }
    let mut out: [u8; 32] = [0u8; 32];
    let mut i: usize = 0;
    while i < 32
        invariant
            value@.len() == 32,
            0 <= i <= 32,
            forall|k: int| 0 <= k < i ==> out@[k] == value@[k],
        decreases 32 - i,
    {
        out[i] = value[i];
        i += 1;
    }
    assert(out@ =~= value@);
    Ok(out)
}

/// Copies a field of exactly 16 bytes.
pub(crate) fn fixed16(value: &[u8], error: IngressReject) -> (r: Result<[u8; 16], IngressReject>)
    ensures
        (value@.len() == 16) <==> r is Ok,
        r is Err ==> r == Err::<[u8; 16], IngressReject>(error),
        r matches Ok(a) ==> a@ == value@,
{
    if value.len() != 16 {
        return Err(error);
    }
    let mut out: [u8; 16] = [0u8; 16];
    let mut i: usize = 0;
    while i < 16
        invariant
            value@.len() == 16,
            0 <= i <= 16,
            forall|k: int| 0 <= k < i ==> out@[k] == value@[k],
        decreases 16 - i,
    {
        out[i] = value[i];
        i += 1;
    }
    assert(out@ =~= value@);
    Ok(out)
}

/// Reads a canonical boolean: `0` or `1`.
pub(crate) fn bool_from_byte(value: u8, error: IngressReject) -> (r: Result<bool, IngressReject>)
    ensures
        (value <= 1) <==> r is Ok,
        r is Err ==> r == Err::<bool, IngressReject>(error),
        r matches Ok(b) ==> b == (value == 1),
{
    match value {
        0 => Ok(false),
        1 => Ok(true),
        _ => Err(error),
    }
}

} // verus!

verus! {

/// The values of the consecutive fields of `w` from `off` whose tags and length bounds
/// `shapes` lists, if every one of them is present in that order.
pub open spec fn fields_read(w: Seq<u8>, off: int, shapes: Seq<(u16, usize)>) -> Option<Seq<Seq<u8>>>
    decreases shapes.len(),
{
    if shapes.len() == 0 {
        Some(Seq::empty())
    } else if field_at(w, off, shapes[0].0, shapes[0].1 as int) {
        match fields_read(w, field_end(w, off), shapes.drop_first()) {
            Some(rest) => Some(seq![field_value(w, off)] + rest),
            None => None,
        }
    } else {
        None
    }
}

/// Where the fields that `shapes` lists end, read from `off`.
pub open spec fn fields_end(w: Seq<u8>, off: int, shapes: Seq<(u16, usize)>) -> int
    decreases shapes.len(),
{
    if shapes.len() == 0 {
        off
    } else {
        fields_end(w, field_end(w, off), shapes.drop_first())
    }
}

/// The fields that carry `values` under the tags of `shapes`, concatenated.
pub open spec fn tlvs(shapes: Seq<(u16, usize)>, values: Seq<Seq<u8>>) -> Seq<u8>
    decreases shapes.len(),
{
    if shapes.len() == 0 || values.len() == 0 {
        Seq::empty()
    } else {
        tlv(shapes[0].0, values[0]) + tlvs(shapes.drop_first(), values.drop_first())
    }
}

/// Whether `values` fit the length bounds of `shapes`, one for one.
pub open spec fn values_fit(shapes: Seq<(u16, usize)>, values: Seq<Seq<u8>>) -> bool {
    &&& values.len() == shapes.len()
    &&& forall|i: int| 0 <= i < values.len() ==> (#[trigger] values[i]).len() <= shapes[i].1
}

proof fn lemma_subrange_of_concat(a: Seq<u8>, t: Seq<u8>, b: Seq<u8>)
    ensures
        (a + t + b).subrange(a.len() as int, (a.len() + t.len()) as int) == t,
{
    assert((a + t + b).subrange(a.len() as int, (a.len() + t.len()) as int) =~= t);
}

/// Reading back what was written: fields written with `tlvs` after any bytes `a` are read
/// back, from the end of `a`, as exactly the written values.
pub proof fn lemma_fields_read_back(a: Seq<u8>, shapes: Seq<(u16, usize)>, values: Seq<Seq<u8>>, rest: Seq<u8>)
    requires
        values_fit(shapes, values),
        forall|i: int| 0 <= i < values.len() ==> (#[trigger] values[i]).len() <= u32::MAX,
    ensures
        fields_read(a + tlvs(shapes, values) + rest, a.len() as int, shapes) == Some(values),
        fields_end(a + tlvs(shapes, values) + rest, a.len() as int, shapes) == a.len() + tlvs(shapes, values).len(),
    decreases shapes.len(),
{
    let w = a + tlvs(shapes, values) + rest;
    if shapes.len() == 0 {
        assert(values =~= Seq::<Seq<u8>>::empty());
    } else {
        let t = tlv(shapes[0].0, values[0]);
        let tail = tlvs(shapes.drop_first(), values.drop_first());
        assert(tlvs(shapes, values) == t + tail);
        assert(w =~= a + t + (tail + rest));
        lemma_subrange_of_concat(a, t, tail + rest);
        assert(values[0].len() <= shapes[0].1);
        lemma_tlv_reads_back(w, a.len() as int, shapes[0].0, values[0], shapes[0].1 as int);
        assert(values_fit(shapes.drop_first(), values.drop_first())) by {
            assert forall|i: int| 0 <= i < values.drop_first().len() implies (
            #[trigger] values.drop_first()[i]).len() <= shapes.drop_first()[i].1 by {
                assert(values.drop_first()[i] == values[i + 1]);
            }
        }
        assert forall|i: int| 0 <= i < values.drop_first().len() implies (
        #[trigger] values.drop_first()[i]).len() <= u32::MAX by {
            assert(values.drop_first()[i] == values[i + 1]);
        }
        lemma_fields_read_back(a + t, shapes.drop_first(), values.drop_first(), rest);
        assert(a + t + tail + rest =~= w);
        assert(seq![values[0]] + values.drop_first() =~= values);
    }
}

/// What was read was written: fields read from `off` lie in `w` exactly as `tlvs` writes them.
pub proof fn lemma_fields_were_written(w: Seq<u8>, off: int, shapes: Seq<(u16, usize)>)
    requires
        0 <= off <= w.len(),
        fields_read(w, off, shapes) is Some,
    ensures
        off <= fields_end(w, off, shapes) <= w.len(),
        w.subrange(off, fields_end(w, off, shapes)) == tlvs(shapes, fields_read(w, off, shapes).unwrap()),
        values_fit(shapes, fields_read(w, off, shapes).unwrap()),
    decreases shapes.len(),
{
    if shapes.len() == 0 {
        assert(w.subrange(off, off) =~= Seq::<u8>::empty());
    } else {
        let e = field_end(w, off);
        let v = field_value(w, off);
        lemma_fields_were_written(w, e, shapes.drop_first());
        let rest = fields_read(w, e, shapes.drop_first()).unwrap();
        let values = fields_read(w, off, shapes).unwrap();
        assert(values == seq![v] + rest);
        assert(values.drop_first() =~= rest);
        assert(values[0] == v);
        lemma_header_bytes(w, off);
        assert(w.subrange(off, fields_end(w, off, shapes)) =~= tlv(shapes[0].0, v) + w.subrange(
            e,
            fields_end(w, off, shapes),
        ));
        assert forall|i: int| 0 <= i < values.len() implies (#[trigger] values[i]).len() <= shapes[i].1 by {
            if i > 0 {
                assert(values[i] == rest[i - 1]);
            }
        }
    }
}

/// The six header bytes of a field are the encoding of its tag and length.
proof fn lemma_header_bytes(w: Seq<u8>, off: int)
    requires
        0 <= off,
        off + 6 <= w.len(),
        0 <= read_be16(w, off) <= u16::MAX,
    ensures
        w.subrange(off, off + 6) == be16(read_be16(w, off) as u16) + be32(read_be32(w, off + 2) as u32),
{
    let b0 = w[off];
    let b1 = w[off + 1];
    let b2 = w[off + 2];
    let b3 = w[off + 3];
    let b4 = w[off + 4];
    let b5 = w[off + 5];
    let tag: u16 = ((b0 as u16) * 256 + (b1 as u16)) as u16;
    let len: u32 = ((b2 as u32) * 16777216 + (b3 as u32) * 65536 + (b4 as u32) * 256 + (b5 as u32)) as u32;
    assert((tag >> 8u16) as u8 == b0 && tag as u8 == b1) by (bit_vector)
        requires
            tag == (b0 as u16 * 256 + b1 as u16) as u16,
    ;
    assert((len >> 24u32) as u8 == b2 && (len >> 16u32) as u8 == b3 && (len >> 8u32) as u8 == b4 && len as u8 == b5)
        by (bit_vector)
        requires
            len == (b2 as u32 * 16777216 + b3 as u32 * 65536 + b4 as u32 * 256 + b5 as u32) as u32,
    ;
    assert(w.subrange(off, off + 6) =~= be16(tag) + be32(len));
}

impl<'a> Decoder<'a> {
    /// Reads the consecutive fields that `shapes` lists, in that order.
    pub(crate) fn fields(&mut self, shapes: &[(u16, usize)]) -> (r: Result<Vec<&'a [u8]>, IngressReject>)
        ensures
            final(self).spec_input() == old(self).spec_input(),
            final(self).spec_error() == old(self).spec_error(),
            fields_read(old(self).spec_input(), old(self).spec_offset(), shapes@) is Some <==> r is Ok,
            r is Err ==> r == Err::<Vec<&'a [u8]>, IngressReject>(old(self).spec_error()),
            r matches Ok(values) ==> values@.map_values(|v: &[u8]| v@) == fields_read(
                old(self).spec_input(),
                old(self).spec_offset(),
                shapes@,
            ).unwrap() && final(self).spec_offset() == fields_end(
                old(self).spec_input(),
                old(self).spec_offset(),
                shapes@,
            ),
    {
        let ghost w = self.spec_input();
        let ghost start = self.spec_offset();
        let mut values: Vec<&'a [u8]> = Vec::new();
        let mut i: usize = 0;
        proof {
            assert(shapes@.skip(0) =~= shapes@);
            assert(values@.map_values(|v: &[u8]| v@) =~= Seq::<Seq<u8>>::empty());
            if let Some(rest) = fields_read(w, start, shapes@) {
                assert(Seq::<Seq<u8>>::empty() + rest =~= rest);
            }
        }
        while i < shapes.len()
            invariant
                self.spec_input() == w,
                self.spec_error() == old(self).spec_error(),
                start == old(self).spec_offset(),
                w == old(self).spec_input(),
                0 <= i <= shapes@.len(),
                values@.len() == i,
                fields_read(w, start, shapes@) == match fields_read(w, self.spec_offset(), shapes@.skip(i as int)) {
                    Some(rest) => Some(values@.map_values(|v: &[u8]| v@) + rest),
                    None => None,
                },
                fields_end(w, start, shapes@) == fields_end(w, self.spec_offset(), shapes@.skip(i as int)),
            decreases shapes@.len() - i,
        {
            let (tag, max) = shapes[i];
            let ghost off = self.spec_offset();
            proof {
                assert(shapes@.skip(i as int)[0] == (tag, max));
                assert(shapes@.skip(i as int).drop_first() =~= shapes@.skip(i as int + 1));
            }
            let value = match self.field(tag, max) {
                Ok(v) => v,
                Err(e) => {
                    return Err(e);
                },
            };
            values.push(value);
            proof {
                let before = values@.drop_last().map_values(|v: &[u8]| v@);
                assert(values@.map_values(|v: &[u8]| v@) =~= before.push(value@));
                match fields_read(w, self.spec_offset(), shapes@.skip(i as int + 1)) {
                    Some(rest) => {
                        assert(before + (seq![value@] + rest) =~= before.push(value@) + rest);
                    },
                    None => {},
                }
            }
            i += 1;
        }
        proof {
            assert(shapes@.skip(i as int) =~= Seq::<(u16, usize)>::empty());
            assert(values@.map_values(|v: &[u8]| v@) + Seq::<Seq<u8>>::empty() =~= values@.map_values(
                |v: &[u8]| v@,
            ));
        }
        Ok(values)
    }
}

} // verus!

verus! {

/// The byte strings a list of borrowed slices holds.
pub open spec fn slice_values(vals: Seq<&[u8]>) -> Seq<Seq<u8>> {
    vals.map_values(|v: &[u8]| v@)
}

/// Whether every length bound of `shapes` fits a 32-bit length field.
pub open spec fn shapes_bounded(shapes: Seq<(u16, usize)>) -> bool {
    forall|i: int| 0 <= i < shapes.len() ==> (#[trigger] shapes[i]).1 <= u32::MAX
}

/// The canonical wire that carries `values` under the tags of `shapes` after `prefix`.
pub open spec fn canonical_wire(prefix: Seq<u8>, shapes: Seq<(u16, usize)>, values: Seq<Seq<u8>>) -> Seq<u8> {
    prefix + tlvs(shapes, values)
}

/// A canonical wire is read back whole: its prefix, then exactly its values, then nothing.
pub proof fn lemma_canonical_wire_reads_back(prefix: Seq<u8>, shapes: Seq<(u16, usize)>, values: Seq<Seq<u8>>)
    requires
        shapes_bounded(shapes),
        values_fit(shapes, values),
    ensures
        canonical_wire(prefix, shapes, values).take(prefix.len() as int) == prefix,
        prefix.len() <= canonical_wire(prefix, shapes, values).len(),
        fields_read(canonical_wire(prefix, shapes, values), prefix.len() as int, shapes) == Some(values),
        fields_end(canonical_wire(prefix, shapes, values), prefix.len() as int, shapes) == canonical_wire(
            prefix,
            shapes,
            values,
        ).len(),
{
    let w = canonical_wire(prefix, shapes, values);
    assert forall|i: int| 0 <= i < values.len() implies (#[trigger] values[i]).len() <= u32::MAX by {
        assert(values[i].len() <= shapes[i].1);
    }
    lemma_fields_read_back(prefix, shapes, values, Seq::empty());
    assert(prefix + tlvs(shapes, values) + Seq::<u8>::empty() =~= w);
    assert(w.take(prefix.len() as int) =~= prefix);
}

/// Reads a whole canonical wire: `prefix`, then the fields that `shapes` lists, then nothing.
///
/// It succeeds exactly on the canonical wires of values that fit `shapes`, and then returns
/// the one list of values the wire carries.
pub(crate) fn decode_fields<'a>(wire: &'a [u8], prefix: &[u8], shapes: &[(u16, usize)], error: IngressReject) -> (r:
    Result<Vec<&'a [u8]>, IngressReject>)
    requires
        shapes_bounded(shapes@),
    ensures
        r matches Ok(vals) ==> values_fit(shapes@, slice_values(vals@)) && wire@ == canonical_wire(
            prefix@,
            shapes@,
            slice_values(vals@),
        ),
        r matches Ok(vals) ==> forall|other: Seq<Seq<u8>>|
            values_fit(shapes@, other) && wire@ == #[trigger] canonical_wire(prefix@, shapes@, other) ==> other
                == slice_values(vals@),
        r is Err ==> r == Err::<Vec<&'a [u8]>, IngressReject>(error),
        r is Err ==> forall|other: Seq<Seq<u8>>|
            values_fit(shapes@, other) ==> wire@ != #[trigger] canonical_wire(prefix@, shapes@, other),
{
    let mut decoder = match Decoder::with_prefix(wire, prefix, error) {
        Ok(d) => d,
        Err(e) => {
            proof {
                assert forall|other: Seq<Seq<u8>>| values_fit(shapes@, other) implies wire@ != #[trigger] canonical_wire(
                    prefix@,
                    shapes@,
                    other,
                ) by {
                    lemma_canonical_wire_reads_back(prefix@, shapes@, other);
                }
            }
            return Err(e);
        },
    };
    let vals = match decoder.fields(shapes) {
        Ok(v) => v,
        Err(e) => {
            proof {
                assert forall|other: Seq<Seq<u8>>| values_fit(shapes@, other) implies wire@ != #[trigger] canonical_wire(
                    prefix@,
                    shapes@,
                    other,
                ) by {
                    lemma_canonical_wire_reads_back(prefix@, shapes@, other);
                }
            }
            return Err(e);
        },
    };
    let ghost end = decoder.spec_offset();
    match decoder.finish() {
        Ok(()) => {},
        Err(e) => {
            proof {
                assert forall|other: Seq<Seq<u8>>| values_fit(shapes@, other) implies wire@ != #[trigger] canonical_wire(
                    prefix@,
                    shapes@,
                    other,
                ) by {
                    lemma_canonical_wire_reads_back(prefix@, shapes@, other);
                }
            }
            return Err(e);
        },
    }
    proof {
        let w = wire@;
        let p = prefix@.len() as int;
        lemma_fields_were_written(w, p, shapes@);
        assert(w =~= w.take(p) + w.subrange(p, end));
        assert forall|other: Seq<Seq<u8>>|
            values_fit(shapes@, other) && wire@ == #[trigger] canonical_wire(prefix@, shapes@, other) implies other
            == slice_values(vals@) by {
            lemma_canonical_wire_reads_back(prefix@, shapes@, other);
        }
    }
    Ok(vals)
}

/// Reads a big-endian 64-bit integer from exactly eight bytes.
pub(crate) fn u64_from_be(value: &[u8]) -> (r: u64)
    requires
        value@.len() == 8,
    ensures
        be64_bytes(r) == value@,
{
    let b0 = value[0];
    let b1 = value[1];
    let b2 = value[2];
    let b3 = value[3];
    let b4 = value[4];
    let b5 = value[5];
    let b6 = value[6];
    let b7 = value[7];
    let v: u64 = ((b0 as u64) << 56u64) | ((b1 as u64) << 48u64) | ((b2 as u64) << 40u64) | ((b3 as u64) << 32u64)
        | ((b4 as u64) << 24u64) | ((b5 as u64) << 16u64) | ((b6 as u64) << 8u64) | (b7 as u64);
    proof {
        assert((v >> 56u64) as u8 == b0 && (v >> 48u64) as u8 == b1 && (v >> 40u64) as u8 == b2 && (v >> 32u64) as u8
            == b3 && (v >> 24u64) as u8 == b4 && (v >> 16u64) as u8 == b5 && (v >> 8u64) as u8 == b6 && v as u8 == b7)
            by (bit_vector)
            requires
                v == ((b0 as u64) << 56u64) | ((b1 as u64) << 48u64) | ((b2 as u64) << 40u64) | ((b3 as u64) << 32u64)
                    | ((b4 as u64) << 24u64) | ((b5 as u64) << 16u64) | ((b6 as u64) << 8u64) | (b7 as u64),
        ;
        assert(value@ =~= be64_bytes(v));
    }
    v
}

/// Reads a big-endian 16-bit integer from exactly two bytes.
pub(crate) fn u16_from_be(value: &[u8]) -> (r: u16)
    requires
        value@.len() == 2,
    ensures
        be16(r) == value@,
{
    let hi = value[0];
    let lo = value[1];
    let v = (hi as u16) * 256 + (lo as u16);
    proof {
        assert((v >> 8u16) as u8 == hi && v as u8 == lo) by (bit_vector)
            requires
                v == hi as u16 * 256 + lo as u16,
        ;
        assert(value@ =~= be16(v));
    }
    v
}

} // verus!

verus! {

/// Two integers with the same big-endian encoding are the same integer.
pub proof fn lemma_be64_injective(x: u64, y: u64)
    requires
        be64_bytes(x) == be64_bytes(y),
    ensures
        x == y,
{
    let a = be64_bytes(x);
    let b = be64_bytes(y);
    assert(a[0] == b[0] && a[1] == b[1] && a[2] == b[2] && a[3] == b[3] && a[4] == b[4] && a[5] == b[5] && a[6]
        == b[6] && a[7] == b[7]);
    assert(x == y) by (bit_vector)
        requires
            (x >> 56u64) as u8 == (y >> 56u64) as u8,
            (x >> 48u64) as u8 == (y >> 48u64) as u8,
            (x >> 40u64) as u8 == (y >> 40u64) as u8,
            (x >> 32u64) as u8 == (y >> 32u64) as u8,
            (x >> 24u64) as u8 == (y >> 24u64) as u8,
            (x >> 16u64) as u8 == (y >> 16u64) as u8,
            (x >> 8u64) as u8 == (y >> 8u64) as u8,
            x as u8 == y as u8,
    ;
}

/// A canonical wire determines the values it carries.
pub proof fn lemma_canonical_wire_injective(
    prefix: Seq<u8>,
    shapes: Seq<(u16, usize)>,
    a: Seq<Seq<u8>>,
    b: Seq<Seq<u8>>,
)
    requires
        shapes_bounded(shapes),
        values_fit(shapes, a),
        values_fit(shapes, b),
        canonical_wire(prefix, shapes, a) == canonical_wire(prefix, shapes, b),
    ensures
        a == b,
{
    lemma_canonical_wire_reads_back(prefix, shapes, a);
    lemma_canonical_wire_reads_back(prefix, shapes, b);
}

/// Reads a big-endian 32-bit integer from exactly four bytes.
pub(crate) fn u32_from_be(value: &[u8]) -> (r: u32)
    requires
        value@.len() == 4,
    ensures
        be32(r) == value@,
        r as int == read_be32(value@, 0),
{
    let b0 = value[0];
    let b1 = value[1];
    let b2 = value[2];
    let b3 = value[3];
    let v: u32 = ((b0 as u32) << 24u32) | ((b1 as u32) << 16u32) | ((b2 as u32) << 8u32) | (b3 as u32);
    proof {
        assert((v >> 24u32) as u8 == b0 && (v >> 16u32) as u8 == b1 && (v >> 8u32) as u8 == b2 && v as u8 == b3)
            by (bit_vector)
            requires
                v == ((b0 as u32) << 24u32) | ((b1 as u32) << 16u32) | ((b2 as u32) << 8u32) | (b3 as u32),
        ;
        assert(value@ =~= be32(v));
        lemma_be32_roundtrip(v);
    }
    v
}

} // verus!

//! The var codec: one tagged field of a packet.
//!
//! A var is `(var_id: u16, kind, payload)`. On the wire it is laid out as
//! `var_id: u16 BE | type_tag: u8 | payload`, where the payload is one byte
//! for `Byte`, four big-endian bytes for `Int`, `Uint` and `Float`, and a
//! big-endian `u16` length followed by that many bytes for `String` and
//! `Data`. Text and blob payloads are held as plain bytes; a `Float`
//! payload is held as the raw bits of the IEEE-754 single it carries, so
//! that the codec moves it bit-exactly without doing float arithmetic.
//!
//! The protocol expects `String` payloads to be NUL-free (no interior
//! zero byte; no trailing NUL on the wire). The codec itself moves
//! payload bytes unchanged in both directions — the round trip holds
//! regardless — so keeping that convention is the producer's duty, not a
//! decode check.

use vstd::prelude::*;

use crate::bytes::{
    be16, be32, bits_of_i32, bits_to_i32, clone_bytes, dec16, dec32, i32_of_bits, i32_to_bits,
    lemma_be16_round_trip, lemma_be32_round_trip, push_u16_be, push_u32_be, read_u16_be,
    read_u32_be,
};

verus! {

/// Wire type tag of a one-byte payload.
pub const TAG_BYTE: u8 = 1;

/// Wire type tag of a signed 32-bit payload.
pub const TAG_INT: u8 = 2;

/// Wire type tag of an unsigned 32-bit payload.
pub const TAG_UINT: u8 = 3;

/// Wire type tag of an IEEE-754 single payload, moved as raw bits.
pub const TAG_FLOAT: u8 = 4;

/// Wire type tag of a length-prefixed text payload.
pub const TAG_STRING: u8 = 5;

/// Wire type tag of a length-prefixed blob payload.
pub const TAG_DATA: u8 = 6;

/// Largest payload a length-prefixed var can carry: its length field is a `u16`.
pub const MAX_VAR_PAYLOAD: usize = 0xFFFF;

/// What the codec reports when bytes cannot be read or written.
#[derive(Clone, Copy, Debug, PartialEq, Eq, Structural)]
pub enum PacketError {
    /// Fewer bytes remain than the declared layout needs.
    ShortRead,
    /// A type tag outside the known registry.
    UnknownType,
    /// A packet's declared length differs from the bytes its body consumed.
    LengthMismatch,
    /// A serialized form would not fit the 16-bit length field.
    TooLarge,
}

/// One tagged field of a packet.
#[derive(Debug)]
pub enum AWPacketVar {
    /// A single byte.
    Byte(u16, u8),
    /// A signed 32-bit integer.
    Int(u16, i32),
    /// An unsigned 32-bit integer.
    Uint(u16, u32),
    /// The raw bits of an IEEE-754 single.
    Float(u16, u32),
    /// Length-prefixed text, held as its bytes.
    String(u16, Vec<u8>),
    /// A length-prefixed blob.
    Data(u16, Vec<u8>),
}

/// The mathematical value of a var.
pub enum VarV {
    Byte(u16, u8),
    Int(u16, i32),
    Uint(u16, u32),
    Float(u16, u32),
    String(u16, Seq<u8>),
    Data(u16, Seq<u8>),
}

impl View for AWPacketVar {
    type V = VarV;

    open spec fn view(&self) -> VarV {
        match self {
            AWPacketVar::Byte(id, x) => VarV::Byte(*id, *x),
            AWPacketVar::Int(id, x) => VarV::Int(*id, *x),
            AWPacketVar::Uint(id, x) => VarV::Uint(*id, *x),
            AWPacketVar::Float(id, x) => VarV::Float(*id, *x),
            AWPacketVar::String(id, x) => VarV::String(*id, x@),
            AWPacketVar::Data(id, x) => VarV::Data(*id, x@),
        }
    }
}

impl VarV {
    /// The var id the field is tagged with.
    pub open spec fn id(self) -> u16 {
        match self {
            VarV::Byte(id, _) => id,
            VarV::Int(id, _) => id,
            VarV::Uint(id, _) => id,
            VarV::Float(id, _) => id,
            VarV::String(id, _) => id,
            VarV::Data(id, _) => id,
        }
    }

    /// A var is well formed when a length-prefixed payload fits its `u16`
    /// length field; fixed-size payloads always are.
    pub open spec fn wf(self) -> bool {
        match self {
            VarV::String(_, p) => p.len() <= MAX_VAR_PAYLOAD,
            VarV::Data(_, p) => p.len() <= MAX_VAR_PAYLOAD,
            _ => true,
        }
    }
}

/// The exact wire bytes of a var.
pub open spec fn enc_var(v: VarV) -> Seq<u8> {
    match v {
        VarV::Byte(id, x) => be16(id) + seq![TAG_BYTE, x],
        VarV::Int(id, x) => be16(id) + seq![TAG_INT] + be32(bits_of_i32(x)),
        VarV::Uint(id, x) => be16(id) + seq![TAG_UINT] + be32(x),
        VarV::Float(id, x) => be16(id) + seq![TAG_FLOAT] + be32(x),
        VarV::String(id, p) => be16(id) + seq![TAG_STRING] + be16(p.len() as u16) + p,
        VarV::Data(id, p) => be16(id) + seq![TAG_DATA] + be16(p.len() as u16) + p,
    }
}

/// What decoding the front of `b` yields: a var and the bytes it consumed,
/// or the error the layout forces.
pub open spec fn dec_var(b: Seq<u8>) -> Result<(VarV, int), PacketError> {
    if b.len() < 3 {
        Err(PacketError::ShortRead)
    } else {
        let id = dec16(b, 0);
        let tag = b[2];
        if tag == TAG_BYTE {
            if b.len() < 4 {
                Err(PacketError::ShortRead)
            } else {
                Ok((VarV::Byte(id, b[3]), 4))
            }
        } else if tag == TAG_INT {
            if b.len() < 7 {
                Err(PacketError::ShortRead)
            } else {
                Ok((VarV::Int(id, i32_of_bits(dec32(b, 3))), 7))
            }
        } else if tag == TAG_UINT {
            if b.len() < 7 {
                Err(PacketError::ShortRead)
            } else {
                Ok((VarV::Uint(id, dec32(b, 3)), 7))
            }
        } else if tag == TAG_FLOAT {
            if b.len() < 7 {
                Err(PacketError::ShortRead)
            } else {
                Ok((VarV::Float(id, dec32(b, 3)), 7))
            }
        } else if tag == TAG_STRING {
            if b.len() < 5 {
                Err(PacketError::ShortRead)
            } else if b.len() < 5 + dec16(b, 3) {
                Err(PacketError::ShortRead)
            } else {
                Ok((VarV::String(id, b.subrange(5, 5 + dec16(b, 3))), 5 + dec16(b, 3)))
            }
        } else if tag == TAG_DATA {
            if b.len() < 5 {
                Err(PacketError::ShortRead)
            } else if b.len() < 5 + dec16(b, 3) {
                Err(PacketError::ShortRead)
            } else {
                Ok((VarV::Data(id, b.subrange(5, 5 + dec16(b, 3))), 5 + dec16(b, 3)))
            }
        } else {
            Err(PacketError::UnknownType)
        }
    }
}

impl AWPacketVar {
    /// The var id the field is tagged with.
    pub fn get_var_id(&self) -> (r: u16)
        ensures
            r == self@.id(),
    {
        match self {
            AWPacketVar::Byte(id, _) => *id,
            AWPacketVar::Int(id, _) => *id,
            AWPacketVar::Uint(id, _) => *id,
            AWPacketVar::Float(id, _) => *id,
            AWPacketVar::String(id, _) => *id,
            AWPacketVar::Data(id, _) => *id,
        }
    }

    /// How many bytes `encode` would produce.
    pub fn encode_len(&self) -> (r: usize)
        requires
            self@.wf(),
        ensures
            r == enc_var(self@).len(),
    {
        match self {
            AWPacketVar::Byte(_, _) => 4,
            AWPacketVar::Int(_, _) => 7,
            AWPacketVar::Uint(_, _) => 7,
            AWPacketVar::Float(_, _) => 7,
            AWPacketVar::String(_, p) => 5 + p.len(),
            AWPacketVar::Data(_, p) => 5 + p.len(),
        }
    }

    /// Appends the wire bytes of this var to `out`.
    pub fn encode_into(&self, out: &mut Vec<u8>)
        requires
            self@.wf(),
        ensures
            final(out)@ == old(out)@ + enc_var(self@),
    {
        match self {
            AWPacketVar::Byte(id, x) => {
                push_u16_be(out, *id);
                out.push(TAG_BYTE);
                out.push(*x);
            }
            AWPacketVar::Int(id, x) => {
                push_u16_be(out, *id);
                out.push(TAG_INT);
                let bits = i32_to_bits(*x);
                push_u32_be(out, bits);
            }
            AWPacketVar::Uint(id, x) => {
                push_u16_be(out, *id);
                out.push(TAG_UINT);
                push_u32_be(out, *x);
            }
            AWPacketVar::Float(id, x) => {
                push_u16_be(out, *id);
                out.push(TAG_FLOAT);
                push_u32_be(out, *x);
            }
            AWPacketVar::String(id, p) => {
                push_u16_be(out, *id);
                out.push(TAG_STRING);
                push_u16_be(out, p.len() as u16);
                let mut i: usize = 0;
                while i < p.len()
                    invariant
                        i <= p.len(),
                        out@ == old(out)@ + be16(*id) + seq![TAG_STRING] + be16(p.len() as u16)
                            + p@.subrange(0, i as int),
                    decreases p.len() - i,
                {
                    out.push(p[i]);
                    i = i + 1;
                    assert(out@ =~= old(out)@ + be16(*id) + seq![TAG_STRING]
                        + be16(p.len() as u16) + p@.subrange(0, i as int));
                }
                assert(p@.subrange(0, p.len() as int) =~= p@);
            }
            AWPacketVar::Data(id, p) => {
                push_u16_be(out, *id);
                out.push(TAG_DATA);
                push_u16_be(out, p.len() as u16);
                let mut i: usize = 0;
                while i < p.len()
                    invariant
                        i <= p.len(),
                        out@ == old(out)@ + be16(*id) + seq![TAG_DATA] + be16(p.len() as u16)
                            + p@.subrange(0, i as int),
                    decreases p.len() - i,
                {
                    out.push(p[i]);
                    i = i + 1;
                    assert(out@ =~= old(out)@ + be16(*id) + seq![TAG_DATA]
                        + be16(p.len() as u16) + p@.subrange(0, i as int));
                }
                assert(p@.subrange(0, p.len() as int) =~= p@);
            }
        }
        assert(out@ =~= old(out)@ + enc_var(self@));
    }

    /// The wire bytes of this var.
    pub fn encode(&self) -> (r: Vec<u8>)
        requires
            self@.wf(),
        ensures
            r@ == enc_var(self@),
    {
        let mut out: Vec<u8> = Vec::new();
        self.encode_into(&mut out);
        assert(out@ =~= enc_var(self@));
        out
    }

    /// Reads one var from `data` at offset `pos`; on success also returns
    /// how many bytes it consumed.
    pub fn decode(data: &Vec<u8>, pos: usize) -> (r: Result<(AWPacketVar, usize), PacketError>)
        requires
            pos <= data.len(),
        ensures
            match r {
                Ok((v, n)) => {
                    &&& dec_var(data@.skip(pos as int)) == Ok::<(VarV, int), PacketError>((
                        v@,
                        n as int,
                    ))
                    &&& pos + n <= data.len()
                    &&& v@.wf()
                },
                Err(e) => dec_var(data@.skip(pos as int)) == Err::<(VarV, int), PacketError>(e),
            },
    {
        let ghost b = data@.skip(pos as int);
        let remaining = data.len() - pos;
        if remaining < 3 {
            return Err(PacketError::ShortRead);
        }
        let id = read_u16_be(data, pos);
        assert(dec16(b, 0) == id) by {
            assert(b[0] == data@[pos as int]);
            assert(b[1] == data@[pos as int + 1]);
        }
        let tag = data[pos + 2];
        assert(b[2] == tag);
        if tag == TAG_BYTE {
            if remaining < 4 {
                return Err(PacketError::ShortRead);
            }
            let x = data[pos + 3];
            assert(b[3] == x);
            Ok((AWPacketVar::Byte(id, x), 4))
        } else if tag == TAG_INT {
            if remaining < 7 {
                return Err(PacketError::ShortRead);
            }
            let bits = read_u32_be(data, pos + 3);
            assert(dec32(b, 3) == bits) by {
                assert(b[3] == data@[pos + 3]);
                assert(b[4] == data@[pos + 4]);
                assert(b[5] == data@[pos + 5]);
                assert(b[6] == data@[pos + 6]);
            }
            Ok((AWPacketVar::Int(id, bits_to_i32(bits)), 7))
        } else if tag == TAG_UINT {
            if remaining < 7 {
                return Err(PacketError::ShortRead);
            }
            let x = read_u32_be(data, pos + 3);
            assert(dec32(b, 3) == x) by {
                assert(b[3] == data@[pos + 3]);
                assert(b[4] == data@[pos + 4]);
                assert(b[5] == data@[pos + 5]);
                assert(b[6] == data@[pos + 6]);
            }
            Ok((AWPacketVar::Uint(id, x), 7))
        } else if tag == TAG_FLOAT {
            if remaining < 7 {
                return Err(PacketError::ShortRead);
            }
            let x = read_u32_be(data, pos + 3);
            assert(dec32(b, 3) == x) by {
                assert(b[3] == data@[pos + 3]);
                assert(b[4] == data@[pos + 4]);
                assert(b[5] == data@[pos + 5]);
                assert(b[6] == data@[pos + 6]);
            }
            Ok((AWPacketVar::Float(id, x), 7))
        } else if tag == TAG_STRING || tag == TAG_DATA {
            if remaining < 5 {
                return Err(PacketError::ShortRead);
            }
            let n = read_u16_be(data, pos + 3);
            assert(dec16(b, 3) == n) by {
                assert(b[3] == data@[pos + 3]);
                assert(b[4] == data@[pos + 4]);
            }
            if remaining < 5 + n as usize {
                return Err(PacketError::ShortRead);
            }
            let mut p: Vec<u8> = Vec::new();
            let mut i: usize = 0;
            while i < n as usize
                invariant
                    i <= n,
                    pos + 5 + n <= data.len(),
                    p@ == data@.subrange(pos + 5, pos + 5 + i),
                decreases n as usize - i,
            {
                p.push(data[pos + 5 + i]);
                i = i + 1;
                assert(p@ =~= data@.subrange(pos + 5, pos + 5 + i));
            }
            assert(p@ =~= b.subrange(5, 5 + n)) by {
                assert(forall|j: int|
                    0 <= j < n ==> #[trigger] b.subrange(5, 5 + n as int)[j] == data@[pos + 5
                        + j]);
            }
            if tag == TAG_STRING {
                Ok((AWPacketVar::String(id, p), 5 + n as usize))
            } else {
                Ok((AWPacketVar::Data(id, p), 5 + n as usize))
            }
        } else {
            Err(PacketError::UnknownType)
        }
    }
}

/// Decoding the wire bytes of a well-formed var gives the var back and
/// consumes exactly its own bytes, whatever follows them.
pub proof fn lemma_dec_enc_var(v: VarV, extra: Seq<u8>)
    requires
        v.wf(),
    ensures
        dec_var(enc_var(v) + extra) == Ok::<(VarV, int), PacketError>((v, enc_var(v).len() as int)),
{
    let b = enc_var(v) + extra;
    assert(b[0] == be16(v.id())[0] && b[1] == be16(v.id())[1]);
    lemma_be16_round_trip(v.id(), b, 0);
    match v {
        VarV::Byte(id, x) => {
            assert(b[2] == TAG_BYTE && b[3] == x);
        }
        VarV::Int(id, x) => {
            assert(b[2] == TAG_INT);
            let bits = bits_of_i32(x);
            assert(b[3] == be32(bits)[0] && b[4] == be32(bits)[1] && b[5] == be32(bits)[2]
                && b[6] == be32(bits)[3]);
            lemma_be32_round_trip(bits, b, 3);
            crate::bytes::lemma_i32_bits_round_trip(x);
        }
        VarV::Uint(id, x) => {
            assert(b[2] == TAG_UINT);
            assert(b[3] == be32(x)[0] && b[4] == be32(x)[1] && b[5] == be32(x)[2]
                && b[6] == be32(x)[3]);
            lemma_be32_round_trip(x, b, 3);
        }
        VarV::Float(id, x) => {
            assert(b[2] == TAG_FLOAT);
            assert(b[3] == be32(x)[0] && b[4] == be32(x)[1] && b[5] == be32(x)[2]
                && b[6] == be32(x)[3]);
            lemma_be32_round_trip(x, b, 3);
        }
        VarV::String(id, p) => {
            assert(b[2] == TAG_STRING);
            let n = p.len() as u16;
            assert(b[3] == be16(n)[0] && b[4] == be16(n)[1]);
            lemma_be16_round_trip(n, b, 3);
            assert(b.subrange(5, 5 + n as int) =~= p);
        }
        VarV::Data(id, p) => {
            assert(b[2] == TAG_DATA);
            let n = p.len() as u16;
            assert(b[3] == be16(n)[0] && b[4] == be16(n)[1]);
            lemma_be16_round_trip(n, b, 3);
            assert(b.subrange(5, 5 + n as int) =~= p);
        }
    }
}

/// Round trip of the var codec: decoding an encoded var yields the var and
/// the encoding's own length.
pub proof fn lemma_var_round_trip(v: VarV)
    requires
        v.wf(),
    ensures
        dec_var(enc_var(v)) == Ok::<(VarV, int), PacketError>((v, enc_var(v).len() as int)),
{
    assert(enc_var(v) + Seq::<u8>::empty() =~= enc_var(v));
    lemma_dec_enc_var(v, Seq::<u8>::empty());
}

impl Clone for AWPacketVar {
    /// A clone carries the same id, kind and payload.
    fn clone(&self) -> (r: Self)
        ensures
            r@ == self@,
    {
        match self {
            AWPacketVar::Byte(id, x) => AWPacketVar::Byte(*id, *x),
            AWPacketVar::Int(id, x) => AWPacketVar::Int(*id, *x),
            AWPacketVar::Uint(id, x) => AWPacketVar::Uint(*id, *x),
            AWPacketVar::Float(id, x) => AWPacketVar::Float(*id, *x),
            AWPacketVar::String(id, p) => AWPacketVar::String(*id, clone_bytes(p)),
            AWPacketVar::Data(id, p) => AWPacketVar::Data(*id, clone_bytes(p)),
        }
    }
}

impl PartialEq for AWPacketVar {
    /// Two vars are equal when their ids, kinds and payloads are.
    fn eq(&self, other: &Self) -> (r: bool) {
        match (self, other) {
            (AWPacketVar::Byte(a, x), AWPacketVar::Byte(b, y)) => a == b && x == y,
            (AWPacketVar::Int(a, x), AWPacketVar::Int(b, y)) => a == b && x == y,
            (AWPacketVar::Uint(a, x), AWPacketVar::Uint(b, y)) => a == b && x == y,
            (AWPacketVar::Float(a, x), AWPacketVar::Float(b, y)) => a == b && x == y,
            (AWPacketVar::String(a, x), AWPacketVar::String(b, y)) => a == b
                && crate::bytes::bytes_eq(x, y),
            (AWPacketVar::Data(a, x), AWPacketVar::Data(b, y)) => a == b
                && crate::bytes::bytes_eq(x, y),
            _ => false,
        }
    }
}

impl vstd::std_specs::cmp::PartialEqSpecImpl for AWPacketVar {
    open spec fn obeys_eq_spec() -> bool {
        true
    }

    open spec fn eq_spec(&self, other: &Self) -> bool {
        self@ == other@
    }
}

} // verus!

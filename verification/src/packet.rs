//! The packet codec: a header and an ordered list of vars, framed with a
//! 16-bit length.
//!
//! Header wire layout (10 bytes, all big-endian):
//! `serialized_length: u16 | header_0: u16 | opcode: i16 | header_1: u16 |
//! var_count: u16`. The declared length covers the header and every var;
//! a packet longer than 65535 bytes cannot be framed and fails to
//! serialize with `TooLarge`. Deserialization checks that the declared
//! length equals the bytes actually consumed and otherwise reports
//! `LengthMismatch`; an opcode outside the registry becomes the sentinel
//! `Unknown` rather than an error, and the two header words travel
//! through bit-exact.

use vstd::prelude::*;

use crate::bytes::{
    be16, bits_of_i16, bits_to_i16, dec16, i16_of_bits, i16_to_bits, lemma_be16_round_trip,
    lemma_i16_bits_round_trip, push_u16_be, read_u16_be,
};
use crate::opcode::{
    lemma_packet_type_round_trip, packet_type_code, spec_packet_type_of, PacketType,
};
use crate::var::{dec_var, enc_var, AWPacketVar, PacketError, VarV};

verus! {

/// Bytes of the fixed packet header.
pub const HEADER_LEN: usize = 10;

/// Largest serialized packet the 16-bit length field can frame.
pub const MAX_PACKET_LEN: usize = 0xFFFF;

/// The mathematical value of a packet.
pub ghost struct PacketV {
    pub opcode: PacketType,
    pub header_0: u16,
    pub header_1: u16,
    pub vars: Seq<VarV>,
}

/// A packet: opcode, two opaque header words, and its vars in order.
#[derive(Debug)]
pub struct AWPacket {
    pub vars: Vec<AWPacketVar>,
    pub opcode: PacketType,
    pub header_0: u16,
    pub header_1: u16,
}

impl View for AWPacket {
    type V = PacketV;

    open spec fn view(&self) -> PacketV {
        PacketV {
            opcode: self.opcode,
            header_0: self.header_0,
            header_1: self.header_1,
            vars: self.vars@.map_values(|v: AWPacketVar| v@),
        }
    }
}

/// The concatenated wire bytes of a list of vars.
pub open spec fn enc_vars(vs: Seq<VarV>) -> Seq<u8>
    decreases vs.len(),
{
    if vs.len() == 0 {
        Seq::<u8>::empty()
    } else {
        enc_var(vs[0]) + enc_vars(vs.skip(1))
    }
}

/// How many bytes the packet's serialized form takes: the header and all vars.
pub open spec fn enc_packet_len(p: PacketV) -> int {
    HEADER_LEN + enc_vars(p.vars).len()
}

/// The exact wire bytes of a packet's header.
pub open spec fn enc_header(p: PacketV) -> Seq<u8> {
    be16(enc_packet_len(p) as u16) + be16(p.header_0) + be16(
        bits_of_i16(packet_type_code(p.opcode)),
    ) + be16(p.header_1) + be16(p.vars.len() as u16)
}

/// The exact wire bytes of a packet.
pub open spec fn enc_packet(p: PacketV) -> Seq<u8> {
    enc_header(p) + enc_vars(p.vars)
}

/// A packet is well formed when each var is and its serialized form fits
/// the 16-bit length field.
pub open spec fn packet_wf(p: PacketV) -> bool {
    &&& forall|i: int| 0 <= i < p.vars.len() ==> (#[trigger] p.vars[i]).wf()
    &&& enc_packet_len(p) <= MAX_PACKET_LEN
}

/// What decoding `n` vars from the front of `b` yields: the vars and the
/// bytes they consumed, or the first error.
pub open spec fn dec_vars(b: Seq<u8>, n: nat) -> Result<(Seq<VarV>, int), PacketError>
    decreases n,
{
    if n == 0 {
        Ok((Seq::<VarV>::empty(), 0))
    } else {
        match dec_var(b) {
            Err(e) => Err(e),
            Ok((v, c)) => match dec_vars(b.skip(c), (n - 1) as nat) {
                Err(e) => Err(e),
                Ok((vs, c2)) => Ok((seq![v] + vs, c + c2)),
            },
        }
    }
}

/// What decoding one packet from the front of `b` yields: the packet and
/// the bytes consumed, or the error the layout forces. The declared
/// length must equal the bytes the header and vars actually consumed.
pub open spec fn dec_packet(b: Seq<u8>) -> Result<(PacketV, int), PacketError> {
    if b.len() < HEADER_LEN {
        Err(PacketError::ShortRead)
    } else {
        match dec_vars(b.skip(HEADER_LEN as int), dec16(b, 8) as nat) {
            Err(e) => Err(e),
            Ok((vs, c)) => if HEADER_LEN + c != dec16(b, 0) {
                Err(PacketError::LengthMismatch)
            } else {
                Ok(
                    (
                        PacketV {
                            opcode: spec_packet_type_of(i16_of_bits(dec16(b, 4))),
                            header_0: dec16(b, 2),
                            header_1: dec16(b, 6),
                            vars: vs,
                        },
                        HEADER_LEN + c,
                    ),
                )
            },
        }
    }
}

/// Appending one var to a list appends its bytes to the list's encoding.
pub proof fn lemma_enc_vars_push(vs: Seq<VarV>, v: VarV)
    ensures
        enc_vars(vs.push(v)) == enc_vars(vs) + enc_var(v),
    decreases vs.len(),
{
    if vs.len() == 0 {
        assert(vs.push(v).len() == 1);
        assert(vs.push(v)[0] == v);
        assert(vs.push(v).skip(1) =~= Seq::<VarV>::empty());
        assert(enc_vars(vs.push(v)) == enc_var(v) + enc_vars(Seq::<VarV>::empty()));
        assert(enc_vars(vs.push(v)) =~= enc_vars(vs) + enc_var(v));
    } else {
        assert(vs.push(v).skip(1) =~= vs.skip(1).push(v));
        lemma_enc_vars_push(vs.skip(1), v);
        assert(enc_vars(vs.push(v)) =~= enc_vars(vs) + enc_var(v));
    }
}

/// The encoding of a list is the encoding of any front part followed by
/// the encoding of the rest.
pub proof fn lemma_enc_vars_split(vs: Seq<VarV>, i: int)
    requires
        0 <= i <= vs.len(),
    ensures
        enc_vars(vs) == enc_vars(vs.take(i)) + enc_vars(vs.skip(i)),
    decreases i,
{
    if i == 0 {
        assert(vs.take(0) =~= Seq::<VarV>::empty());
        assert(vs.skip(0) =~= vs);
        assert(enc_vars(vs) =~= enc_vars(vs.take(0)) + enc_vars(vs.skip(0)));
    } else {
        lemma_enc_vars_split(vs, i - 1);
        assert(vs.take(i) =~= vs.take(i - 1).push(vs[i - 1]));
        lemma_enc_vars_push(vs.take(i - 1), vs[i - 1]);
        assert(vs.skip(i - 1) =~= seq![vs[i - 1]] + vs.skip(i));
        assert(vs.skip(i - 1).skip(1) =~= vs.skip(i));
        assert(enc_vars(vs.skip(i - 1)) == enc_var(vs[i - 1]) + enc_vars(vs.skip(i)));
        assert(enc_vars(vs) =~= enc_vars(vs.take(i)) + enc_vars(vs.skip(i)));
    }
}

/// Every var takes at least four bytes on the wire.
pub proof fn lemma_enc_vars_min_len(vs: Seq<VarV>)
    ensures
        enc_vars(vs).len() >= 4 * vs.len(),
    decreases vs.len(),
{
    if vs.len() > 0 {
        lemma_enc_vars_min_len(vs.skip(1));
    }
}

/// Decoding the concatenated bytes of well-formed vars gives the vars
/// back, whatever follows them.
pub proof fn lemma_dec_enc_vars(vs: Seq<VarV>, extra: Seq<u8>)
    requires
        forall|i: int| 0 <= i < vs.len() ==> (#[trigger] vs[i]).wf(),
    ensures
        dec_vars(enc_vars(vs) + extra, vs.len() as nat) == Ok::<(Seq<VarV>, int), PacketError>(
            (vs, enc_vars(vs).len() as int),
        ),
    decreases vs.len(),
{
    if vs.len() == 0 {
        assert(dec_vars(enc_vars(vs) + extra, 0) == Ok::<(Seq<VarV>, int), PacketError>((
            Seq::<VarV>::empty(),
            0,
        )));
        assert(vs =~= Seq::<VarV>::empty());
    } else {
        let v = vs[0];
        let tail = vs.skip(1);
        let b = enc_vars(vs) + extra;
        assert(b =~= enc_var(v) + (enc_vars(tail) + extra));
        crate::var::lemma_dec_enc_var(v, enc_vars(tail) + extra);
        let c = enc_var(v).len() as int;
        assert(b.skip(c) =~= enc_vars(tail) + extra);
        lemma_dec_enc_vars(tail, extra);
        assert(seq![v] + tail =~= vs);
    }
}

/// The header fields read back from a packet's wire bytes.
#[verifier::rlimit(100)]
pub proof fn lemma_enc_header_fields(p: PacketV)
    ensures
        enc_packet(p).len() == enc_packet_len(p),
        dec16(enc_packet(p), 0) == enc_packet_len(p) as u16,
        dec16(enc_packet(p), 2) == p.header_0,
        dec16(enc_packet(p), 4) == bits_of_i16(packet_type_code(p.opcode)),
        dec16(enc_packet(p), 6) == p.header_1,
        dec16(enc_packet(p), 8) == p.vars.len() as u16,
        enc_packet(p).skip(HEADER_LEN as int) == enc_vars(p.vars),
{
    let b = enc_packet(p);
    let h = enc_header(p);
    let total = enc_packet_len(p);
    let code = packet_type_code(p.opcode);
    assert(h.len() == 10);
    assert(h[0] == be16(total as u16)[0] && h[1] == be16(total as u16)[1]);
    assert(h[2] == be16(p.header_0)[0] && h[3] == be16(p.header_0)[1]);
    assert(h[4] == be16(bits_of_i16(code))[0] && h[5] == be16(bits_of_i16(code))[1]);
    assert(h[6] == be16(p.header_1)[0] && h[7] == be16(p.header_1)[1]);
    assert(h[8] == be16(p.vars.len() as u16)[0] && h[9] == be16(p.vars.len() as u16)[1]);
    assert(forall|j: int| 0 <= j < 10 ==> b[j] == h[j]);
    lemma_be16_round_trip(total as u16, b, 0);
    lemma_be16_round_trip(p.header_0, b, 2);
    lemma_be16_round_trip(bits_of_i16(code), b, 4);
    lemma_be16_round_trip(p.header_1, b, 6);
    lemma_be16_round_trip(p.vars.len() as u16, b, 8);
    assert(b.skip(HEADER_LEN as int) =~= enc_vars(p.vars));
}

/// Round trip of the packet codec: deserializing a serialized well-formed
/// packet gives the packet back, consuming exactly its serialized length.
pub proof fn lemma_packet_round_trip(p: PacketV)
    requires
        packet_wf(p),
    ensures
        dec_packet(enc_packet(p)) == Ok::<(PacketV, int), PacketError>(
            (p, enc_packet(p).len() as int),
        ),
{
    let b = enc_packet(p);
    let total = enc_packet_len(p);
    lemma_enc_header_fields(p);
    lemma_enc_vars_min_len(p.vars);
    assert(p.vars.len() <= MAX_PACKET_LEN);
    lemma_i16_bits_round_trip(packet_type_code(p.opcode));
    lemma_packet_type_round_trip(p.opcode);
    assert(b.skip(HEADER_LEN as int) + Seq::<u8>::empty() =~= enc_vars(p.vars) + Seq::<
        u8,
    >::empty());
    assert(enc_vars(p.vars) + Seq::<u8>::empty() =~= enc_vars(p.vars));
    lemma_dec_enc_vars(p.vars, Seq::<u8>::empty());
}

/// The length field of a serialized packet equals the byte count of the
/// whole serialized form.
pub proof fn lemma_length_field(p: PacketV)
    requires
        packet_wf(p),
    ensures
        enc_packet(p).len() == enc_packet_len(p),
        dec16(enc_packet(p), 0) == enc_packet(p).len(),
{
    lemma_enc_header_fields(p);
}

/// The fixed ten-byte packet header, as read from or written to the wire.
#[derive(Clone, Copy, Debug, PartialEq, Eq, Structural)]
pub struct TagHeader {
    /// The length of the whole serialized packet, header included.
    pub serialized_length: u16,
    /// An opaque word, preserved bit-exact.
    pub header_0: u16,
    /// The packet's opcode.
    pub opcode: i16,
    /// An opaque word, preserved bit-exact.
    pub header_1: u16,
    /// How many vars follow the header.
    pub var_count: u16,
}

/// The exact wire bytes of a header.
pub open spec fn enc_tag_header(h: TagHeader) -> Seq<u8> {
    be16(h.serialized_length) + be16(h.header_0) + be16(bits_of_i16(h.opcode)) + be16(h.header_1)
        + be16(h.var_count)
}

impl TagHeader {
    /// Bytes of the fixed packet header.
    pub fn length() -> (r: usize)
        ensures
            r == HEADER_LEN,
    {
        10
    }

    /// The wire bytes of this header, always exactly ten.
    pub fn serialize(&self) -> (r: Vec<u8>)
        ensures
            r@ == enc_tag_header(*self),
            r@.len() == HEADER_LEN,
    {
        let mut out: Vec<u8> = Vec::new();
        push_u16_be(&mut out, self.serialized_length);
        push_u16_be(&mut out, self.header_0);
        let opbits = i16_to_bits(self.opcode);
        push_u16_be(&mut out, opbits);
        push_u16_be(&mut out, self.header_1);
        push_u16_be(&mut out, self.var_count);
        assert(out@ =~= enc_tag_header(*self));
        out
    }

    /// Reads one header from the front of `data`; fewer than ten bytes
    /// are a `ShortRead`.
    pub fn deserialize(data: &Vec<u8>) -> (r: Result<(TagHeader, usize), PacketError>)
        ensures
            match r {
                Ok((h, n)) => {
                    &&& data@.len() >= HEADER_LEN
                    &&& n == HEADER_LEN
                    &&& h.serialized_length == dec16(data@, 0)
                    &&& h.header_0 == dec16(data@, 2)
                    &&& h.opcode == i16_of_bits(dec16(data@, 4))
                    &&& h.header_1 == dec16(data@, 6)
                    &&& h.var_count == dec16(data@, 8)
                },
                Err(e) => e == PacketError::ShortRead && data@.len() < HEADER_LEN,
            },
    {
        if data.len() < HEADER_LEN {
            return Err(PacketError::ShortRead);
        }
        let header = TagHeader {
            serialized_length: read_u16_be(data, 0),
            header_0: read_u16_be(data, 2),
            opcode: bits_to_i16(read_u16_be(data, 4)),
            header_1: read_u16_be(data, 6),
            var_count: read_u16_be(data, 8),
        };
        Ok((header, HEADER_LEN))
    }
}

/// Round trip of the header codec: reading back a written header gives
/// the header, consuming exactly its ten bytes.
pub proof fn lemma_tag_header_round_trip(h: TagHeader)
    ensures
        dec16(enc_tag_header(h), 0) == h.serialized_length,
        dec16(enc_tag_header(h), 2) == h.header_0,
        i16_of_bits(dec16(enc_tag_header(h), 4)) == h.opcode,
        dec16(enc_tag_header(h), 6) == h.header_1,
        dec16(enc_tag_header(h), 8) == h.var_count,
{
    let b = enc_tag_header(h);
    assert(b[0] == be16(h.serialized_length)[0] && b[1] == be16(h.serialized_length)[1]);
    assert(b[2] == be16(h.header_0)[0] && b[3] == be16(h.header_0)[1]);
    assert(b[4] == be16(bits_of_i16(h.opcode))[0] && b[5] == be16(bits_of_i16(h.opcode))[1]);
    assert(b[6] == be16(h.header_1)[0] && b[7] == be16(h.header_1)[1]);
    assert(b[8] == be16(h.var_count)[0] && b[9] == be16(h.var_count)[1]);
    lemma_be16_round_trip(h.serialized_length, b, 0);
    lemma_be16_round_trip(h.header_0, b, 2);
    lemma_be16_round_trip(bits_of_i16(h.opcode), b, 4);
    lemma_be16_round_trip(h.header_1, b, 6);
    lemma_be16_round_trip(h.var_count, b, 8);
    lemma_i16_bits_round_trip(h.opcode);
}

/// A framed byte stream whose declared length differs from what the
/// header and vars actually consume decodes to `LengthMismatch`.
pub proof fn lemma_length_mismatch(b: Seq<u8>, vs: Seq<VarV>, c: int)
    requires
        b.len() >= HEADER_LEN,
        dec_vars(b.skip(HEADER_LEN as int), dec16(b, 8) as nat) == Ok::<
            (Seq<VarV>, int),
            PacketError,
        >((vs, c)),
        HEADER_LEN + c != dec16(b, 0),
    ensures
        dec_packet(b) == Err::<(PacketV, int), PacketError>(PacketError::LengthMismatch),
{
}

impl AWPacket {
    /// A fresh packet of the given kind, with empty header words and no vars.
    pub fn new(opcode: PacketType) -> (r: Self)
        ensures
            r@.opcode == opcode,
            r@.header_0 == 0,
            r@.header_1 == 0,
            r@.vars == Seq::<VarV>::empty(),
    {
        let r = Self { vars: Vec::new(), opcode, header_0: 0, header_1: 0 };
        assert(r@.vars =~= Seq::<VarV>::empty());
        r
    }

    /// Appends a var; insertion order is preserved on the wire.
    pub fn add_var(&mut self, var: AWPacketVar)
        ensures
            final(self)@ == (PacketV { vars: old(self)@.vars.push(var@), ..old(self)@ }),
    {
        self.vars.push(var);
        assert(self@.vars =~= old(self)@.vars.push(var@));
    }

    /// The vars in insertion order.
    pub fn get_vars(&self) -> (r: &Vec<AWPacketVar>)
        ensures
            r@.map_values(|v: AWPacketVar| v@) == self@.vars,
    {
        &self.vars
    }

    /// The packet's kind.
    pub fn get_opcode(&self) -> (r: PacketType)
        ensures
            r == self@.opcode,
    {
        self.opcode
    }

    /// The first var with the given id, of any kind.
    pub fn get_var(&self, var_id: u16) -> (r: Option<&AWPacketVar>)
        ensures
            match r {
                Some(v) => spec_get_var(self@.vars, var_id) == Some(v@),
                None => spec_get_var(self@.vars, var_id) is None,
            },
    {
        let mut i: usize = 0;
        assert(self@.vars.skip(0) =~= self@.vars);
        while i < self.vars.len()
            invariant
                i <= self.vars.len(),
                spec_get_var(self@.vars, var_id) == spec_get_var(
                    self@.vars.skip(i as int),
                    var_id,
                ),
            decreases self.vars.len() - i,
        {
            assert(self@.vars.skip(i as int)[0] == self@.vars[i as int]);
            assert(self@.vars.skip(i as int).skip(1) =~= self@.vars.skip(i as int + 1));
            if self.vars[i].get_var_id() == var_id {
                return Some(&self.vars[i]);
            }
            i = i + 1;
        }
        assert(self@.vars.skip(i as int) =~= Seq::<VarV>::empty());
        None
    }

    /// The first `Byte` var with the given id.
    pub fn get_byte(&self, var_id: u16) -> (r: Option<u8>)
        ensures
            r == spec_get_byte(self@.vars, var_id),
    {
        let mut i: usize = 0;
        assert(self@.vars.skip(0) =~= self@.vars);
        while i < self.vars.len()
            invariant
                i <= self.vars.len(),
                spec_get_byte(self@.vars, var_id) == spec_get_byte(
                    self@.vars.skip(i as int),
                    var_id,
                ),
            decreases self.vars.len() - i,
        {
            assert(self@.vars.skip(i as int)[0] == self@.vars[i as int]);
            assert(self@.vars.skip(i as int).skip(1) =~= self@.vars.skip(i as int + 1));
            match &self.vars[i] {
                AWPacketVar::Byte(id, x) => {
                    if *id == var_id {
                        return Some(*x);
                    }
                }
                _ => {}
            }
            i = i + 1;
        }
        assert(self@.vars.skip(i as int) =~= Seq::<VarV>::empty());
        None
    }

    /// The first `Int` var with the given id.
    pub fn get_int(&self, var_id: u16) -> (r: Option<i32>)
        ensures
            r == spec_get_int(self@.vars, var_id),
    {
        let mut i: usize = 0;
        assert(self@.vars.skip(0) =~= self@.vars);
        while i < self.vars.len()
            invariant
                i <= self.vars.len(),
                spec_get_int(self@.vars, var_id) == spec_get_int(
                    self@.vars.skip(i as int),
                    var_id,
                ),
            decreases self.vars.len() - i,
        {
            assert(self@.vars.skip(i as int)[0] == self@.vars[i as int]);
            assert(self@.vars.skip(i as int).skip(1) =~= self@.vars.skip(i as int + 1));
            match &self.vars[i] {
                AWPacketVar::Int(id, x) => {
                    if *id == var_id {
                        return Some(*x);
                    }
                }
                _ => {}
            }
            i = i + 1;
        }
        assert(self@.vars.skip(i as int) =~= Seq::<VarV>::empty());
        None
    }

    /// The first `Uint` var with the given id.
    pub fn get_uint(&self, var_id: u16) -> (r: Option<u32>)
        ensures
            r == spec_get_uint(self@.vars, var_id),
    {
        let mut i: usize = 0;
        assert(self@.vars.skip(0) =~= self@.vars);
        while i < self.vars.len()
            invariant
                i <= self.vars.len(),
                spec_get_uint(self@.vars, var_id) == spec_get_uint(
                    self@.vars.skip(i as int),
                    var_id,
                ),
            decreases self.vars.len() - i,
        {
            assert(self@.vars.skip(i as int)[0] == self@.vars[i as int]);
            assert(self@.vars.skip(i as int).skip(1) =~= self@.vars.skip(i as int + 1));
            match &self.vars[i] {
                AWPacketVar::Uint(id, x) => {
                    if *id == var_id {
                        return Some(*x);
                    }
                }
                _ => {}
            }
            i = i + 1;
        }
        assert(self@.vars.skip(i as int) =~= Seq::<VarV>::empty());
        None
    }

    /// The first `String` var with the given id, as its bytes.
    pub fn get_string(&self, var_id: u16) -> (r: Option<Vec<u8>>)
        ensures
            match r {
                Some(p) => spec_get_string(self@.vars, var_id) == Some(p@),
                None => spec_get_string(self@.vars, var_id) is None,
            },
    {
        let mut i: usize = 0;
        assert(self@.vars.skip(0) =~= self@.vars);
        while i < self.vars.len()
            invariant
                i <= self.vars.len(),
                spec_get_string(self@.vars, var_id) == spec_get_string(
                    self@.vars.skip(i as int),
                    var_id,
                ),
            decreases self.vars.len() - i,
        {
            assert(self@.vars.skip(i as int)[0] == self@.vars[i as int]);
            assert(self@.vars.skip(i as int).skip(1) =~= self@.vars.skip(i as int + 1));
            match &self.vars[i] {
                AWPacketVar::String(id, p) => {
                    if *id == var_id {
                        return Some(crate::bytes::clone_bytes(p));
                    }
                }
                _ => {}
            }
            i = i + 1;
        }
        assert(self@.vars.skip(i as int) =~= Seq::<VarV>::empty());
        None
    }

    /// The first `Data` var with the given id.
    pub fn get_data(&self, var_id: u16) -> (r: Option<Vec<u8>>)
        ensures
            match r {
                Some(p) => spec_get_data(self@.vars, var_id) == Some(p@),
                None => spec_get_data(self@.vars, var_id) is None,
            },
    {
        let mut i: usize = 0;
        assert(self@.vars.skip(0) =~= self@.vars);
        while i < self.vars.len()
            invariant
                i <= self.vars.len(),
                spec_get_data(self@.vars, var_id) == spec_get_data(
                    self@.vars.skip(i as int),
                    var_id,
                ),
            decreases self.vars.len() - i,
        {
            assert(self@.vars.skip(i as int)[0] == self@.vars[i as int]);
            assert(self@.vars.skip(i as int).skip(1) =~= self@.vars.skip(i as int + 1));
            match &self.vars[i] {
                AWPacketVar::Data(id, p) => {
                    if *id == var_id {
                        return Some(crate::bytes::clone_bytes(p));
                    }
                }
                _ => {}
            }
            i = i + 1;
        }
        assert(self@.vars.skip(i as int) =~= Seq::<VarV>::empty());
        None
    }

    /// How many bytes `serialize` would produce: the header and every
    /// var. A form that would not fit the 16-bit length field cannot be
    /// framed at all, so the count is capped at one above the largest
    /// framable length rather than summed further.
    pub fn serialize_len(&self) -> (r: usize)
        ensures
            r == (if enc_packet_len(self@) <= MAX_PACKET_LEN {
                enc_packet_len(self@)
            } else {
                MAX_PACKET_LEN + 1
            }),
    {
        let mut size: usize = HEADER_LEN;
        let mut i: usize = 0;
        while i < self.vars.len()
            invariant
                i <= self.vars.len(),
                size == HEADER_LEN + enc_vars(self@.vars.take(i as int)).len(),
                size <= MAX_PACKET_LEN + 5 + MAX_PACKET_LEN,
            decreases self.vars.len() - i,
        {
            proof {
                lemma_enc_vars_split(self@.vars, i as int);
            }
            if size > MAX_PACKET_LEN {
                proof {
                    assert(enc_vars(self@.vars).len() >= enc_vars(
                        self@.vars.take(i as int),
                    ).len());
                }
                return MAX_PACKET_LEN + 1;
            }
            let var = &self.vars[i];
            match var {
                AWPacketVar::String(_, p) => {
                    if p.len() > crate::var::MAX_VAR_PAYLOAD {
                        proof {
                            assert(enc_vars(self@.vars) == enc_vars(self@.vars.take(i as int))
                                + enc_vars(self@.vars.skip(i as int)));
                            assert(self@.vars.skip(i as int)[0] == self@.vars[i as int]);
                            assert(enc_vars(self@.vars.skip(i as int)).len() >= enc_var(
                                self@.vars[i as int],
                            ).len());
                        }
                        return MAX_PACKET_LEN + 1;
                    }
                }
                AWPacketVar::Data(_, p) => {
                    if p.len() > crate::var::MAX_VAR_PAYLOAD {
                        proof {
                            assert(enc_vars(self@.vars) == enc_vars(self@.vars.take(i as int))
                                + enc_vars(self@.vars.skip(i as int)));
                            assert(self@.vars.skip(i as int)[0] == self@.vars[i as int]);
                            assert(enc_vars(self@.vars.skip(i as int)).len() >= enc_var(
                                self@.vars[i as int],
                            ).len());
                        }
                        return MAX_PACKET_LEN + 1;
                    }
                }
                _ => {}
            }
            let vlen = var.encode_len();
            proof {
                assert(self@.vars.take(i as int + 1) =~= self@.vars.take(i as int).push(
                    self@.vars[i as int],
                ));
                lemma_enc_vars_push(self@.vars.take(i as int), self@.vars[i as int]);
            }
            size = size + vlen;
            i = i + 1;
        }
        proof {
            assert(self@.vars.take(i as int) =~= self@.vars);
        }
        if size > MAX_PACKET_LEN {
            MAX_PACKET_LEN + 1
        } else {
            size
        }
    }

    /// The wire bytes of this packet; `TooLarge` exactly when the
    /// serialized form would exceed 65535 bytes.
    pub fn serialize(&self) -> (r: Result<Vec<u8>, PacketError>)
        ensures
            match r {
                Ok(bytes) => enc_packet_len(self@) <= MAX_PACKET_LEN && bytes@ == enc_packet(
                    self@,
                ),
                Err(e) => e == PacketError::TooLarge && enc_packet_len(self@) > MAX_PACKET_LEN,
            },
    {
        let total = self.serialize_len();
        if total > MAX_PACKET_LEN {
            return Err(PacketError::TooLarge);
        }
        proof {
            lemma_enc_vars_min_len(self@.vars);
            lemma_packet_vars_wf(self@);
        }
        let mut out: Vec<u8> = Vec::new();
        push_u16_be(&mut out, total as u16);
        push_u16_be(&mut out, self.header_0);
        let opbits = i16_to_bits(self.opcode.as_i16());
        push_u16_be(&mut out, opbits);
        push_u16_be(&mut out, self.header_1);
        push_u16_be(&mut out, self.vars.len() as u16);
        assert(out@ =~= enc_header(self@));
        let mut i: usize = 0;
        while i < self.vars.len()
            invariant
                i <= self.vars.len(),
                out@ == enc_header(self@) + enc_vars(self@.vars.take(i as int)),
                forall|j: int| 0 <= j < self@.vars.len() ==> (#[trigger] self@.vars[j]).wf(),
            decreases self.vars.len() - i,
        {
            self.vars[i].encode_into(&mut out);
            proof {
                assert(self@.vars.take(i as int + 1) =~= self@.vars.take(i as int).push(
                    self@.vars[i as int],
                ));
                lemma_enc_vars_push(self@.vars.take(i as int), self@.vars[i as int]);
                assert(out@ =~= enc_header(self@) + enc_vars(self@.vars.take(i as int + 1)));
            }
            i = i + 1;
        }
        proof {
            assert(self@.vars.take(i as int) =~= self@.vars);
        }
        Ok(out)
    }

    /// Reads exactly one packet from the front of `data`; on success also
    /// returns the bytes consumed, which the declared length must equal.
    pub fn deserialize(data: &Vec<u8>) -> (r: Result<(Self, usize), PacketError>)
        ensures
            match r {
                Ok((p, n)) => dec_packet(data@) == Ok::<(PacketV, int), PacketError>((
                    p@,
                    n as int,
                )) && n <= data.len(),
                Err(e) => dec_packet(data@) == Err::<(PacketV, int), PacketError>(e),
            },
    {
        if data.len() < HEADER_LEN {
            return Err(PacketError::ShortRead);
        }
        let declared = read_u16_be(data, 0);
        let header_0 = read_u16_be(data, 2);
        let opbits = read_u16_be(data, 4);
        let header_1 = read_u16_be(data, 6);
        let var_count = read_u16_be(data, 8);
        let mut vars: Vec<AWPacketVar> = Vec::new();
        let mut pos: usize = HEADER_LEN;
        let mut i: usize = 0;
        while i < var_count as usize
            invariant
                i <= var_count,
                HEADER_LEN <= pos <= data.len(),
                vars.len() == i,
                var_count == dec16(data@, 8),
                dec_vars(data@.skip(HEADER_LEN as int), var_count as nat) == match dec_vars(
                    data@.skip(pos as int),
                    (var_count - i) as nat,
                ) {
                    Ok((vs, c)) => Ok::<(Seq<VarV>, int), PacketError>((
                        vars@.map_values(|v: AWPacketVar| v@) + vs,
                        (pos - HEADER_LEN) + c,
                    )),
                    Err(e) => Err::<(Seq<VarV>, int), PacketError>(e),
                },
            decreases var_count as usize - i,
        {
            match AWPacketVar::decode(data, pos) {
                Ok((v, c)) => {
                    proof {
                        assert(data@.skip(pos as int).skip(c as int) =~= data@.skip(
                            pos as int + c as int,
                        ));
                    }
                    let ghost old_vars = vars@.map_values(|v: AWPacketVar| v@);
                    vars.push(v);
                    proof {
                        assert(vars@.map_values(|v: AWPacketVar| v@) =~= old_vars.push(v@));
                        assert forall|vs2: Seq<VarV>| true implies old_vars + (seq![v@] + vs2)
                            =~= (old_vars.push(v@)) + vs2 by {}
                    }
                    pos = pos + c;
                    i = i + 1;
                }
                Err(e) => {
                    return Err(e);
                }
            }
        }
        if pos != declared as usize {
            return Err(PacketError::LengthMismatch);
        }
        proof {
            assert(dec_vars(data@.skip(pos as int), 0) == Ok::<(Seq<VarV>, int), PacketError>((
                Seq::<VarV>::empty(),
                0,
            )));
            assert(vars@.map_values(|v: AWPacketVar| v@) + Seq::<VarV>::empty() =~= vars@.map_values(
                |v: AWPacketVar| v@,
            ));
        }
        let opcode = PacketType::from_i16(bits_to_i16(opbits));
        let packet = Self { vars, opcode, header_0, header_1 };
        Ok((packet, pos))
    }
}

/// A packet that fits its length field has only well-formed vars: each
/// var's payload lies inside the serialized form.
pub proof fn lemma_packet_vars_wf(p: PacketV)
    requires
        enc_packet_len(p) <= MAX_PACKET_LEN,
    ensures
        packet_wf(p),
{
    assert forall|i: int| 0 <= i < p.vars.len() implies (#[trigger] p.vars[i]).wf() by {
        lemma_enc_vars_split(p.vars, i);
        assert(p.vars.skip(i)[0] == p.vars[i]);
        assert(enc_vars(p.vars.skip(i)).len() >= enc_var(p.vars[i]).len());
    }
}

/// The first var with the given id, of any kind.
pub open spec fn spec_get_var(vs: Seq<VarV>, id: u16) -> Option<VarV>
    decreases vs.len(),
{
    if vs.len() == 0 {
        None
    } else if vs[0].id() == id {
        Some(vs[0])
    } else {
        spec_get_var(vs.skip(1), id)
    }
}

/// The payload of the first `Byte` var with the given id.
pub open spec fn spec_get_byte(vs: Seq<VarV>, id: u16) -> Option<u8>
    decreases vs.len(),
{
    if vs.len() == 0 {
        None
    } else {
        match vs[0] {
            VarV::Byte(i, x) => if i == id {
                Some(x)
            } else {
                spec_get_byte(vs.skip(1), id)
            },
            _ => spec_get_byte(vs.skip(1), id),
        }
    }
}

/// The payload of the first `Int` var with the given id.
pub open spec fn spec_get_int(vs: Seq<VarV>, id: u16) -> Option<i32>
    decreases vs.len(),
{
    if vs.len() == 0 {
        None
    } else {
        match vs[0] {
            VarV::Int(i, x) => if i == id {
                Some(x)
            } else {
                spec_get_int(vs.skip(1), id)
            },
            _ => spec_get_int(vs.skip(1), id),
        }
    }
}

/// The payload of the first `Uint` var with the given id.
pub open spec fn spec_get_uint(vs: Seq<VarV>, id: u16) -> Option<u32>
    decreases vs.len(),
{
    if vs.len() == 0 {
        None
    } else {
        match vs[0] {
            VarV::Uint(i, x) => if i == id {
                Some(x)
            } else {
                spec_get_uint(vs.skip(1), id)
            },
            _ => spec_get_uint(vs.skip(1), id),
        }
    }
}

/// The payload of the first `String` var with the given id.
pub open spec fn spec_get_string(vs: Seq<VarV>, id: u16) -> Option<Seq<u8>>
    decreases vs.len(),
{
    if vs.len() == 0 {
        None
    } else {
        match vs[0] {
            VarV::String(i, p) => if i == id {
                Some(p)
            } else {
                spec_get_string(vs.skip(1), id)
            },
            _ => spec_get_string(vs.skip(1), id),
        }
    }
}

/// The payload of the first `Data` var with the given id.
pub open spec fn spec_get_data(vs: Seq<VarV>, id: u16) -> Option<Seq<u8>>
    decreases vs.len(),
{
    if vs.len() == 0 {
        None
    } else {
        match vs[0] {
            VarV::Data(i, p) => if i == id {
                Some(p)
            } else {
                spec_get_data(vs.skip(1), id)
            },
            _ => spec_get_data(vs.skip(1), id),
        }
    }
}

/// Law of `add_var` and the `Byte` accessor: after appending a var the
/// accessor returns its payload, unless an earlier var of the same kind
/// and id already supplies one — the earlier var wins.
pub proof fn lemma_get_byte_push(vs: Seq<VarV>, v: VarV, id: u16)
    ensures
        spec_get_byte(vs.push(v), id) == (if spec_get_byte(vs, id) is Some {
            spec_get_byte(vs, id)
        } else {
            match v {
                VarV::Byte(i, x) => if i == id {
                    Some(x)
                } else {
                    None
                },
                _ => None,
            }
        }),
    decreases vs.len(),
{
    reveal_with_fuel(spec_get_byte, 3);
    if vs.len() == 0 {
        assert(vs.push(v)[0] == v);
        assert(vs.push(v).skip(1) =~= Seq::<VarV>::empty());
    } else {
        assert(vs.push(v)[0] == vs[0]);
        assert(vs.push(v).skip(1) =~= vs.skip(1).push(v));
        lemma_get_byte_push(vs.skip(1), v, id);
    }
}

/// Law of `add_var` and the `Int` accessor: after appending a var the
/// accessor returns its payload, unless an earlier var of the same kind
/// and id already supplies one — the earlier var wins.
pub proof fn lemma_get_int_push(vs: Seq<VarV>, v: VarV, id: u16)
    ensures
        spec_get_int(vs.push(v), id) == (if spec_get_int(vs, id) is Some {
            spec_get_int(vs, id)
        } else {
            match v {
                VarV::Int(i, x) => if i == id {
                    Some(x)
                } else {
                    None
                },
                _ => None,
            }
        }),
    decreases vs.len(),
{
    reveal_with_fuel(spec_get_int, 3);
    if vs.len() == 0 {
        assert(vs.push(v)[0] == v);
        assert(vs.push(v).skip(1) =~= Seq::<VarV>::empty());
    } else {
        assert(vs.push(v)[0] == vs[0]);
        assert(vs.push(v).skip(1) =~= vs.skip(1).push(v));
        lemma_get_int_push(vs.skip(1), v, id);
    }
}

/// Law of `add_var` and the `Uint` accessor: after appending a var the
/// accessor returns its payload, unless an earlier var of the same kind
/// and id already supplies one — the earlier var wins.
pub proof fn lemma_get_uint_push(vs: Seq<VarV>, v: VarV, id: u16)
    ensures
        spec_get_uint(vs.push(v), id) == (if spec_get_uint(vs, id) is Some {
            spec_get_uint(vs, id)
        } else {
            match v {
                VarV::Uint(i, x) => if i == id {
                    Some(x)
                } else {
                    None
                },
                _ => None,
            }
        }),
    decreases vs.len(),
{
    reveal_with_fuel(spec_get_uint, 3);
    if vs.len() == 0 {
        assert(vs.push(v)[0] == v);
        assert(vs.push(v).skip(1) =~= Seq::<VarV>::empty());
    } else {
        assert(vs.push(v)[0] == vs[0]);
        assert(vs.push(v).skip(1) =~= vs.skip(1).push(v));
        lemma_get_uint_push(vs.skip(1), v, id);
    }
}

/// Law of `add_var` and the `String` accessor: after appending a var the
/// accessor returns its payload, unless an earlier var of the same kind
/// and id already supplies one — the earlier var wins.
pub proof fn lemma_get_string_push(vs: Seq<VarV>, v: VarV, id: u16)
    ensures
        spec_get_string(vs.push(v), id) == (if spec_get_string(vs, id) is Some {
            spec_get_string(vs, id)
        } else {
            match v {
                VarV::String(i, x) => if i == id {
                    Some(x)
                } else {
                    None
                },
                _ => None,
            }
        }),
    decreases vs.len(),
{
    reveal_with_fuel(spec_get_string, 3);
    if vs.len() == 0 {
        assert(vs.push(v)[0] == v);
        assert(vs.push(v).skip(1) =~= Seq::<VarV>::empty());
    } else {
        assert(vs.push(v)[0] == vs[0]);
        assert(vs.push(v).skip(1) =~= vs.skip(1).push(v));
        lemma_get_string_push(vs.skip(1), v, id);
    }
}

/// Law of `add_var` and the `Data` accessor: after appending a var the
/// accessor returns its payload, unless an earlier var of the same kind
/// and id already supplies one — the earlier var wins.
pub proof fn lemma_get_data_push(vs: Seq<VarV>, v: VarV, id: u16)
    ensures
        spec_get_data(vs.push(v), id) == (if spec_get_data(vs, id) is Some {
            spec_get_data(vs, id)
        } else {
            match v {
                VarV::Data(i, x) => if i == id {
                    Some(x)
                } else {
                    None
                },
                _ => None,
            }
        }),
    decreases vs.len(),
{
    reveal_with_fuel(spec_get_data, 3);
    if vs.len() == 0 {
        assert(vs.push(v)[0] == v);
        assert(vs.push(v).skip(1) =~= Seq::<VarV>::empty());
    } else {
        assert(vs.push(v)[0] == vs[0]);
        assert(vs.push(v).skip(1) =~= vs.skip(1).push(v));
        lemma_get_data_push(vs.skip(1), v, id);
    }
}

impl Clone for AWPacket {
    /// A clone carries the same opcode, header words and vars.
    fn clone(&self) -> (r: Self)
        ensures
            r@ == self@,
    {
        let mut vars: Vec<AWPacketVar> = Vec::new();
        let mut i: usize = 0;
        while i < self.vars.len()
            invariant
                i <= self.vars.len(),
                vars@.map_values(|v: AWPacketVar| v@) == self@.vars.take(i as int),
            decreases self.vars.len() - i,
        {
            let copied = self.vars[i].clone();
            assert(copied@ == self@.vars[i as int]);
            let ghost prefix = vars@.map_values(|v: AWPacketVar| v@);
            vars.push(copied);
            assert(vars@.map_values(|v: AWPacketVar| v@) =~= prefix.push(copied@));
            i = i + 1;
            assert(vars@.map_values(|v: AWPacketVar| v@) =~= self@.vars.take(i as int));
        }
        assert(vars@.map_values(|v: AWPacketVar| v@) =~= self@.vars);
        let r = Self { vars, opcode: self.opcode, header_0: self.header_0, header_1: self.header_1 };
        r
    }
}

impl PartialEq for AWPacket {
    /// Two packets are equal when their opcodes, header words and var
    /// lists are.
    fn eq(&self, other: &Self) -> (r: bool) {
        if !(self.opcode == other.opcode && self.header_0 == other.header_0 && self.header_1
            == other.header_1 && self.vars.len() == other.vars.len()) {
            assert(self@ != other@) by {
                if self.vars.len() != other.vars.len() {
                    assert(self@.vars.len() != other@.vars.len());
                }
            }
            return false;
        }
        let mut i: usize = 0;
        while i < self.vars.len()
            invariant
                i <= self.vars.len(),
                self.vars.len() == other.vars.len(),
                forall|j: int| 0 <= j < i ==> self@.vars[j] == other@.vars[j],
            decreases self.vars.len() - i,
        {
            if !(self.vars[i] == other.vars[i]) {
                assert(self@.vars[i as int] != other@.vars[i as int]);
                return false;
            }
            i = i + 1;
        }
        assert(self@.vars =~= other@.vars);
        true
    }
}

impl vstd::std_specs::cmp::PartialEqSpecImpl for AWPacket {
    open spec fn obeys_eq_spec() -> bool {
        true
    }

    open spec fn eq_spec(&self, other: &Self) -> bool {
        self@ == other@
    }
}

} // verus!

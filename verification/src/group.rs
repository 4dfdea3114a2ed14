//! The packet group codec: back-to-back packets bounded by a byte budget.
//!
//! A group bundles small packets into one transmission. `push` appends a
//! packet when the running serialized byte count stays within the budget;
//! otherwise it hands the packet back to the caller, who flushes the
//! group and starts a new one — nothing is dropped silently. Packet order
//! is preserved.

use vstd::prelude::*;

use crate::packet::{enc_packet_len, AWPacket, PacketV, MAX_PACKET_LEN};

verus! {

/// Byte budget of one group, from transport MTU considerations.
pub const MAX_GROUP_LEN: usize = 0x1400;

/// An ordered list of packets whose serialized forms fit one budget.
pub struct AWPacketGroup {
    pub packets: Vec<AWPacket>,
    pub total: usize,
}

impl View for AWPacketGroup {
    type V = Seq<PacketV>;

    open spec fn view(&self) -> Seq<PacketV> {
        self.packets@.map_values(|p: AWPacket| p@)
    }
}

/// The serialized byte count of a list of packets, laid back to back.
pub open spec fn group_len(ps: Seq<PacketV>) -> int
    decreases ps.len(),
{
    if ps.len() == 0 {
        0
    } else {
        enc_packet_len(ps[0]) + group_len(ps.skip(1))
    }
}

/// Appending a packet adds its serialized length to the group's byte count.
pub proof fn lemma_group_len_push(ps: Seq<PacketV>, p: PacketV)
    ensures
        group_len(ps.push(p)) == group_len(ps) + enc_packet_len(p),
    decreases ps.len(),
{
    reveal_with_fuel(group_len, 3);
    if ps.len() == 0 {
        assert(ps.push(p)[0] == p);
        assert(ps.push(p).skip(1) =~= Seq::<PacketV>::empty());
    } else {
        assert(ps.push(p)[0] == ps[0]);
        assert(ps.push(p).skip(1) =~= ps.skip(1).push(p));
        lemma_group_len_push(ps.skip(1), p);
    }
}

impl AWPacketGroup {
    /// The group's running byte count matches its contents and fits the
    /// budget.
    pub open spec fn wf(&self) -> bool {
        &&& self.total == group_len(self@)
        &&& self.total <= MAX_GROUP_LEN
    }

    /// A fresh, empty group.
    pub fn new() -> (r: Self)
        ensures
            r@ == Seq::<PacketV>::empty(),
            r.wf(),
    {
        let r = Self { packets: Vec::new(), total: 0 };
        assert(r@ =~= Seq::<PacketV>::empty());
        r
    }

    /// Appends `packet` when its serialized length still fits the budget;
    /// otherwise returns it to the caller and leaves the group unchanged.
    pub fn push(&mut self, packet: AWPacket) -> (r: Result<(), AWPacket>)
        requires
            old(self).wf(),
        ensures
            final(self).wf(),
            match r {
                Ok(()) => {
                    &&& group_len(old(self)@) + enc_packet_len(packet@) <= MAX_GROUP_LEN
                    &&& final(self)@ == old(self)@.push(packet@)
                },
                Err(q) => {
                    &&& group_len(old(self)@) + enc_packet_len(packet@) > MAX_GROUP_LEN
                    &&& final(self)@ == old(self)@
                    &&& q@ == packet@
                },
            },
    {
        let len = packet.serialize_len();
        if len <= MAX_GROUP_LEN - self.total {
            assert(len <= MAX_GROUP_LEN && MAX_GROUP_LEN < MAX_PACKET_LEN);
            let ghost before = self@;
            self.total = self.total + len;
            self.packets.push(packet);
            proof {
                assert(self@ =~= before.push(packet@));
                lemma_group_len_push(before, packet@);
            }
            Ok(())
        } else {
            proof {
                if enc_packet_len(packet@) <= MAX_PACKET_LEN {
                    assert(len == enc_packet_len(packet@));
                } else {
                    assert(enc_packet_len(packet@) > MAX_GROUP_LEN);
                }
            }
            Err(packet)
        }
    }

    /// How many serialized bytes the group holds.
    pub fn byte_len(&self) -> (r: usize)
        requires
            self.wf(),
        ensures
            r == group_len(self@),
    {
        self.total
    }

    /// How many packets the group holds.
    pub fn packet_count(&self) -> (r: usize)
        ensures
            r == self@.len(),
    {
        self.packets.len()
    }
}

} // verus!

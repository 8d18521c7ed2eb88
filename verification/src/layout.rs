//! Runtime memory layout items: the multiprocessor wake-up mailbox record
//! and the memory bases the boot path hands around.

use crate::bytes::{le16, le16_bytes, le32, le32_bytes, le64, le64_bytes};
use crate::bytes::{lemma_le16_at, lemma_le32_at, lemma_le64_at};
use crate::bytes::{read_le_u16, read_le_u32, read_le_u64};
use vstd::prelude::*;

verus! {

/// The multiprocessor wake-up mailbox exchanged with the guest's
/// additional processors: command, reserved word, APIC id and wake-up
/// vector; 16 bytes little-endian on the wire.
pub struct TdxMpWakeupMailbox {
    /// Command slot written by the BSP, polled by the APs.
    pub command: u16,
    /// Reserved, kept zero.
    pub rsvd: u16,
    /// APIC id of the processor the command addresses.
    pub apic_id: u32,
    /// Entry point the woken processor jumps to.
    pub wakeup_vector: u64,
}

impl TdxMpWakeupMailbox {
    /// The 16-byte wire encoding: each field little-endian, in field order.
    pub open spec fn spec_bytes(&self) -> Seq<u8> {
        le16_bytes(self.command) + le16_bytes(self.rsvd) + le32_bytes(self.apic_id) + le64_bytes(
            self.wakeup_vector,
        )
    }

    /// Encodes the mailbox into its 16-byte wire form.
    pub fn to_bytes(&self) -> (r: Vec<u8>)
        ensures
            r@ == self.spec_bytes(),
            r@.len() == 16,
    {
        let mut r: Vec<u8> = Vec::new();
        r.push((self.command % 0x100) as u8);
        r.push((self.command / 0x100) as u8);
        r.push((self.rsvd % 0x100) as u8);
        r.push((self.rsvd / 0x100) as u8);
        r.push((self.apic_id % 0x100) as u8);
        r.push((self.apic_id / 0x100 % 0x100) as u8);
        r.push((self.apic_id / 0x10000 % 0x100) as u8);
        r.push((self.apic_id / 0x1000000) as u8);
        r.push((self.wakeup_vector % 0x100) as u8);
        r.push((self.wakeup_vector / 0x100 % 0x100) as u8);
        r.push((self.wakeup_vector / 0x10000 % 0x100) as u8);
        r.push((self.wakeup_vector / 0x1000000 % 0x100) as u8);
        r.push((self.wakeup_vector / 0x100000000 % 0x100) as u8);
        r.push((self.wakeup_vector / 0x10000000000 % 0x100) as u8);
        r.push((self.wakeup_vector / 0x1000000000000 % 0x100) as u8);
        r.push((self.wakeup_vector / 0x100000000000000) as u8);
        proof {
            reveal(crate::bytes::le16_bytes);
            reveal(crate::bytes::le32_bytes);
            reveal(crate::bytes::le64_bytes);
            assert(r@ =~= self.spec_bytes());
        }
        r
    }

    /// Decodes a mailbox from the first 16 bytes of `b`; `None` when the
    /// buffer is too short.
    pub fn from_bytes(b: &[u8]) -> (r: Option<TdxMpWakeupMailbox>)
        ensures
            match r {
                Some(m) => {
                    &&& b@.len() >= 16
                    &&& m.command == le16(b@, 0)
                    &&& m.rsvd == le16(b@, 2)
                    &&& m.apic_id == le32(b@, 4)
                    &&& m.wakeup_vector == le64(b@, 8)
                },
                None => b@.len() < 16,
            },
    {
        if b.len() < 16 {
            return None;
        }
        Some(
            TdxMpWakeupMailbox {
                command: read_le_u16(b, 0),
                rsvd: read_le_u16(b, 2),
                apic_id: read_le_u32(b, 4),
                wakeup_vector: read_le_u64(b, 8),
            },
        )
    }
}

/// Law (round trip): decoding the wire encoding of a mailbox yields every
/// field back.
pub proof fn lemma_mailbox_bytes_round_trip(m: TdxMpWakeupMailbox)
    ensures
        m.spec_bytes().len() == 16,
        le16(m.spec_bytes(), 0) == m.command,
        le16(m.spec_bytes(), 2) == m.rsvd,
        le32(m.spec_bytes(), 4) == m.apic_id,
        le64(m.spec_bytes(), 8) == m.wakeup_vector,
{
    reveal(crate::bytes::le16_bytes);
    reveal(crate::bytes::le32_bytes);
    reveal(crate::bytes::le64_bytes);
    let b = m.spec_bytes();
    assert(b.subrange(0, 2) =~= le16_bytes(m.command));
    lemma_le16_at(b, 0, m.command);
    assert(b.subrange(2, 4) =~= le16_bytes(m.rsvd));
    lemma_le16_at(b, 2, m.rsvd);
    assert(b.subrange(4, 8) =~= le32_bytes(m.apic_id));
    lemma_le32_at(b, 4, m.apic_id);
    assert(b.subrange(8, 16) =~= le64_bytes(m.wakeup_vector));
    lemma_le64_at(b, 8, m.wakeup_vector);
}

impl Default for TdxMpWakeupMailbox {
    /// An idle mailbox: every field zero.
    fn default() -> (r: Self)
        ensures
            r.command == 0,
            r.rsvd == 0,
            r.apic_id == 0,
            r.wakeup_vector == 0,
    {
        TdxMpWakeupMailbox { command: 0, rsvd: 0, apic_id: 0, wakeup_vector: 0 }
    }
}

/// The memory bases the boot path computes once and hands to its stages.
pub struct RuntimeMemoryLayout {
    /// Base of the wake-up mailbox page.
    pub runtime_mailbox_base: u64,
    /// Base of the runtime heap.
    pub runtime_heap_base: u64,
    /// Base of the runtime stack.
    pub runtime_stack_base: u64,
}

} // verus!

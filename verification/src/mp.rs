//! Multiprocessor support tables: the ACPI MADT with its wake-up mailbox
//! entry, and the page-acceptance plan for bringing memory into the trust
//! domain.
//!
//! The MADT is a capacity-checked, cursor-based writer with an explicit
//! checksum finalization step; records are laid down by little-endian
//! byte-offset writes, not struct overlay.

use crate::acpi::{calculate_checksum, spec_byte_sum};
use crate::bytes::{le16_bytes, le32, le32_bytes, le64, le64_bytes};
use crate::bytes::{lemma_le32_at, lemma_le64_at};
use vstd::prelude::*;
use vstd::slice::slice_subrange;

verus! {

/// Capacity of the MADT buffer.
pub const MADT_MAX_SIZE: usize = 0x400;

/// The MADT under construction: a fixed-capacity buffer and the number of
/// bytes written so far.
pub struct Madt {
    /// The table bytes; only the first `size` are meaningful.
    pub data: [u8; 0x400],
    /// Bytes written so far.
    pub size: usize,
}

impl Madt {
    /// The cursor has not run past the buffer's capacity.
    pub open spec fn wf(&self) -> bool {
        self.size <= MADT_MAX_SIZE
    }

    /// The table bytes written so far.
    pub open spec fn bytes(&self) -> Seq<u8> {
        self.data@.take(self.size as int)
    }

    /// An empty table: capacity allocated, nothing written.
    fn default() -> (r: Self)
        ensures
            r.wf(),
            r.size == 0,
            r.bytes() == Seq::<u8>::empty(),
            forall|k: int| 0 <= k < MADT_MAX_SIZE ==> r.data@[k] == 0u8,
    {
        let r = Madt { data: [0; 0x400], size: 0 };
        proof {
            assert(r.bytes() =~= Seq::<u8>::empty());
        }
        r
    }

    /// Appends one byte at the cursor.
    fn push_u8(&mut self, v: u8)
        requires
            old(self).wf(),
            old(self).size + 1 <= MADT_MAX_SIZE,
        ensures
            final(self).wf(),
            final(self).size == old(self).size + 1,
            final(self).bytes() == old(self).bytes().push(v),
            forall|k: int|
                0 <= k < old(self).size ==> (#[trigger] final(self).bytes()[k]) == old(
                    self,
                ).bytes()[k],
    {
        self.data[self.size] = v;
        self.size = self.size + 1;
        proof {
            assert(self.bytes() =~= old(self).bytes().push(v));
        }
    }

    /// Appends `n` zero bytes at the cursor.
    #[verifier::loop_isolation(false)]
    fn pad(&mut self, n: usize)
        requires
            old(self).wf(),
            old(self).size + n <= MADT_MAX_SIZE,
        ensures
            final(self).wf(),
            final(self).size == old(self).size + n,
            final(self).bytes() == old(self).bytes() + Seq::new(n as nat, |k: int| 0u8),
            forall|k: int|
                0 <= k < old(self).size ==> (#[trigger] final(self).bytes()[k]) == old(
                    self,
                ).bytes()[k],
    {
        let mut k: usize = 0;
        while k < n
            invariant
                k <= n,
                self.wf(),
                self.size == old(self).size + k,
                self.bytes() == old(self).bytes() + Seq::new(k as nat, |j: int| 0u8),
            decreases n - k,
        {
            self.push_u8(0);
            proof {
                assert(self.bytes() =~= old(self).bytes() + Seq::new((k + 1) as nat, |j: int| 0u8));
            }
            k = k + 1;
        }
    }

    /// Appends a slice of bytes at the cursor.
    #[verifier::loop_isolation(false)]
    fn write(&mut self, data: &[u8])
        requires
            old(self).wf(),
            old(self).size + data@.len() <= MADT_MAX_SIZE,
        ensures
            final(self).wf(),
            final(self).size == old(self).size + data@.len(),
            final(self).bytes() == old(self).bytes() + data@,
            forall|k: int|
                0 <= k < old(self).size ==> (#[trigger] final(self).bytes()[k]) == old(
                    self,
                ).bytes()[k],
    {
        let mut k: usize = 0;
        while k < data.len()
            invariant
                k <= data@.len(),
                self.wf(),
                self.size == old(self).size + k,
                self.bytes() == old(self).bytes() + data@.take(k as int),
            decreases data@.len() - k,
        {
            self.push_u8(data[k]);
            proof {
                assert(self.bytes() =~= old(self).bytes() + data@.take(k + 1));
            }
            k = k + 1;
        }
        proof {
            assert(data@.take(data@.len() as int) =~= data@);
        }
    }

    /// Appends a 16-bit value, little-endian.
    fn push_u16(&mut self, v: u16)
        requires
            old(self).wf(),
            old(self).size + 2 <= MADT_MAX_SIZE,
        ensures
            final(self).wf(),
            final(self).size == old(self).size + 2,
            final(self).bytes() == old(self).bytes() + le16_bytes(v),
            forall|k: int|
                0 <= k < old(self).size ==> (#[trigger] final(self).bytes()[k]) == old(
                    self,
                ).bytes()[k],
    {
        self.push_u8((v % 0x100) as u8);
        self.push_u8((v / 0x100) as u8);
        proof {
            reveal(crate::bytes::le16_bytes);
            assert(self.bytes() =~= old(self).bytes() + le16_bytes(v));
        }
    }

    /// Appends a 32-bit value, little-endian.
    fn push_u32(&mut self, v: u32)
        requires
            old(self).wf(),
            old(self).size + 4 <= MADT_MAX_SIZE,
        ensures
            final(self).wf(),
            final(self).size == old(self).size + 4,
            final(self).bytes() == old(self).bytes() + le32_bytes(v),
            forall|k: int|
                0 <= k < old(self).size ==> (#[trigger] final(self).bytes()[k]) == old(
                    self,
                ).bytes()[k],
    {
        self.push_u8((v % 0x100) as u8);
        self.push_u8((v / 0x100 % 0x100) as u8);
        self.push_u8((v / 0x10000 % 0x100) as u8);
        self.push_u8((v / 0x1000000) as u8);
        proof {
            reveal(crate::bytes::le32_bytes);
            assert(self.bytes() =~= old(self).bytes() + le32_bytes(v));
        }
    }

    /// Appends a 64-bit value, little-endian.
    fn push_u64(&mut self, v: u64)
        requires
            old(self).wf(),
            old(self).size + 8 <= MADT_MAX_SIZE,
        ensures
            final(self).wf(),
            final(self).size == old(self).size + 8,
            final(self).bytes() == old(self).bytes() + le64_bytes(v),
            forall|k: int|
                0 <= k < old(self).size ==> (#[trigger] final(self).bytes()[k]) == old(
                    self,
                ).bytes()[k],
    {
        self.push_u8((v % 0x100) as u8);
        self.push_u8((v / 0x100 % 0x100) as u8);
        self.push_u8((v / 0x10000 % 0x100) as u8);
        self.push_u8((v / 0x1000000 % 0x100) as u8);
        self.push_u8((v / 0x100000000 % 0x100) as u8);
        self.push_u8((v / 0x10000000000 % 0x100) as u8);
        self.push_u8((v / 0x1000000000000 % 0x100) as u8);
        self.push_u8((v / 0x100000000000000) as u8);
        proof {
            reveal(crate::bytes::le64_bytes);
            assert(self.bytes() =~= old(self).bytes() + le64_bytes(v));
        }
    }

    /// Recomputes the table checksum over the written bytes and stores it
    /// in the checksum byte of the SDT header.
    fn update_checksum(&mut self)
        requires
            old(self).wf(),
            10 <= old(self).size,
        ensures
            final(self).wf(),
            final(self).size == old(self).size,
            final(self).data@ == old(self).data@.update(9, final(self).data@[9]),
            (spec_byte_sum(old(self).bytes()) + final(self).data@[9]) % 256 == 0,
    {
        let prefix = slice_subrange(self.data.as_slice(), 0, self.size);
        let checksum = calculate_checksum(prefix);
        self.data[9] = checksum;
        proof {
            assert(self.data@ =~= old(self).data@.update(9, checksum));
            assert(prefix@ =~= old(self).bytes());
        }
    }
}


/// The per-CPU processor-local APIC records of a MADT: one 8-byte record
/// per CPU starting at offset 44, type 0, length 8, processor and APIC id
/// equal to the CPU index, flags 1 (enabled) little-endian.
pub open spec fn spec_local_apic_records(b: Seq<u8>, cpu_num: int) -> bool {
    forall|c: int|
        0 <= c < cpu_num ==> #[trigger] b[44 + 8 * c] == 0u8 && b[45 + 8 * c] == 8u8 && b[46 + 8
            * c] == c as u8 && b[47 + 8 * c] == c as u8 && b[48 + 8 * c] == 1u8 && b[49 + 8 * c]
            == 0u8 && b[50 + 8 * c] == 0u8 && b[51 + 8 * c] == 0u8
}

/// Builds the MADT for `cpu_num` processors with the wake-up mailbox at
/// `mailbox_base`: the SDT header ("APIC", revision 1, OEM fields zero),
/// the 32-bit local APIC address and flags, one processor-local APIC
/// record per CPU, the I/O APIC, the 8259 interrupt source overrides, the
/// local APIC NMI record and the wake-up mailbox record, checksummed as a
/// whole.  The table is 238 bytes plus 8 per CPU, which must fit the
/// buffer's capacity.
#[verifier::rlimit(100)]
#[verifier::loop_isolation(false)]
pub fn create_madt(cpu_num: u8, mailbox_base: u64) -> (r: Madt)
    requires
        238 + cpu_num as int * 8 <= MADT_MAX_SIZE,
    ensures
        r.wf(),
        r.size == 238 + cpu_num as int * 8,
        spec_byte_sum(r.bytes()) % 256 == 0,
        r.bytes()[0] == 0x41u8,
        r.bytes()[1] == 0x50u8,
        r.bytes()[2] == 0x49u8,
        r.bytes()[3] == 0x43u8,
        le32(r.bytes(), 4) == 238 + cpu_num as int * 8,
        r.bytes()[r.size - 16] == 0x10u8,
        le64(r.bytes(), r.size - 8) == mailbox_base,
        spec_local_apic_records(r.bytes(), cpu_num as int),
{
    let table_length: u32 = 238 + cpu_num as u32 * 8;
    let mut madt = Madt::default();
    madt.push_u8(0x41);
    madt.push_u8(0x50);
    madt.push_u8(0x49);
    madt.push_u8(0x43);
    madt.push_u32(table_length);
    madt.push_u8(1);
    madt.push_u8(0);
    madt.pad(26);
    madt.push_u32(0xfee00000);
    madt.push_u32(1);
    proof {
        assert(madt.bytes()[4] == le32_bytes(table_length)[0]);
        assert(madt.bytes()[5] == le32_bytes(table_length)[1]);
        assert(madt.bytes()[6] == le32_bytes(table_length)[2]);
        assert(madt.bytes()[7] == le32_bytes(table_length)[3]);
    }
    let mut cpu: u8 = 0;
    while cpu < cpu_num
        invariant
            cpu <= cpu_num,
            madt.wf(),
            madt.size == 44 + cpu as int * 8,
            madt.bytes()[0] == 0x41u8,
            madt.bytes()[1] == 0x50u8,
            madt.bytes()[2] == 0x49u8,
            madt.bytes()[3] == 0x43u8,
            madt.bytes()[4] == le32_bytes(table_length)[0],
            madt.bytes()[5] == le32_bytes(table_length)[1],
            madt.bytes()[6] == le32_bytes(table_length)[2],
            madt.bytes()[7] == le32_bytes(table_length)[3],
            madt.bytes()[9] == 0u8,
            spec_local_apic_records(madt.bytes(), cpu as int),
        decreases cpu_num - cpu,
    {
        madt.push_u8(0);
        madt.push_u8(8);
        madt.push_u8(cpu);
        madt.push_u8(cpu);
        madt.push_u32(1);
        proof {
            reveal(crate::bytes::le32_bytes);
            assert forall|c: int| 0 <= c < cpu + 1 implies #[trigger] madt.bytes()[44 + 8 * c]
                == 0u8 && madt.bytes()[45 + 8 * c] == 8u8 && madt.bytes()[46 + 8 * c] == c as u8
                && madt.bytes()[47 + 8 * c] == c as u8 && madt.bytes()[48 + 8 * c] == 1u8
                && madt.bytes()[49 + 8 * c] == 0u8 && madt.bytes()[50 + 8 * c] == 0u8
                && madt.bytes()[51 + 8 * c] == 0u8 by {
                assert(madt.bytes()[44 + 8 * c] == 0u8);
                assert(madt.bytes()[45 + 8 * c] == 8u8);
                assert(madt.bytes()[46 + 8 * c] == c as u8);
                assert(madt.bytes()[47 + 8 * c] == c as u8);
                assert(madt.bytes()[48 + 8 * c] == 1u8);
                assert(madt.bytes()[49 + 8 * c] == 0u8);
                assert(madt.bytes()[50 + 8 * c] == 0u8);
                assert(madt.bytes()[51 + 8 * c] == 0u8);
            }
            assert(spec_local_apic_records(madt.bytes(), cpu as int + 1));
        }
        cpu = cpu + 1;
    }
    madt.push_u8(1);
    madt.push_u8(12);
    madt.push_u8(cpu_num);
    madt.push_u8(0);
    madt.push_u32(0xfec00000);
    madt.push_u32(0);
    madt.push_u8(2);
    madt.push_u8(10);
    madt.push_u8(0);
    madt.push_u8(0);
    madt.push_u32(2);
    madt.push_u16(5);
    proof {
        assert forall|c: int| 0 <= c < cpu_num implies #[trigger] madt.bytes()[44 + 8 * c] == 0u8
            && madt.bytes()[45 + 8 * c] == 8u8 && madt.bytes()[46 + 8 * c] == c as u8
            && madt.bytes()[47 + 8 * c] == c as u8 && madt.bytes()[48 + 8 * c] == 1u8
            && madt.bytes()[49 + 8 * c] == 0u8 && madt.bytes()[50 + 8 * c] == 0u8 && madt.bytes()[51
            + 8 * c] == 0u8 by {
            assert(madt.bytes()[44 + 8 * c] == 0u8);
            assert(madt.bytes()[45 + 8 * c] == 8u8);
            assert(madt.bytes()[46 + 8 * c] == c as u8);
            assert(madt.bytes()[47 + 8 * c] == c as u8);
            assert(madt.bytes()[48 + 8 * c] == 1u8);
            assert(madt.bytes()[49 + 8 * c] == 0u8);
            assert(madt.bytes()[50 + 8 * c] == 0u8);
            assert(madt.bytes()[51 + 8 * c] == 0u8);
        }
        assert(spec_local_apic_records(madt.bytes(), cpu_num as int));
    }
    let mut irq: u8 = 1;
    while irq < 16
        invariant
            1 <= irq <= 16,
            madt.wf(),
            madt.size == 66 + cpu_num as int * 8 + 10 * (irq as int - 1),
            madt.bytes()[0] == 0x41u8,
            madt.bytes()[1] == 0x50u8,
            madt.bytes()[2] == 0x49u8,
            madt.bytes()[3] == 0x43u8,
            madt.bytes()[4] == le32_bytes(table_length)[0],
            madt.bytes()[5] == le32_bytes(table_length)[1],
            madt.bytes()[6] == le32_bytes(table_length)[2],
            madt.bytes()[7] == le32_bytes(table_length)[3],
            madt.bytes()[9] == 0u8,
            spec_local_apic_records(madt.bytes(), cpu_num as int),
        decreases 16 - irq,
    {
        madt.push_u8(2);
        madt.push_u8(10);
        madt.push_u8(0);
        madt.push_u8(irq);
        madt.push_u32(irq as u32);
        madt.push_u16(5);
        proof {
            assert forall|c: int| 0 <= c < cpu_num implies #[trigger] madt.bytes()[44 + 8 * c] == 0u8
                && madt.bytes()[45 + 8 * c] == 8u8 && madt.bytes()[46 + 8 * c] == c as u8
                && madt.bytes()[47 + 8 * c] == c as u8 && madt.bytes()[48 + 8 * c] == 1u8
                && madt.bytes()[49 + 8 * c] == 0u8 && madt.bytes()[50 + 8 * c] == 0u8 && madt.bytes()[51
                + 8 * c] == 0u8 by {
                assert(madt.bytes()[44 + 8 * c] == 0u8);
                assert(madt.bytes()[45 + 8 * c] == 8u8);
                assert(madt.bytes()[46 + 8 * c] == c as u8);
                assert(madt.bytes()[47 + 8 * c] == c as u8);
                assert(madt.bytes()[48 + 8 * c] == 1u8);
                assert(madt.bytes()[49 + 8 * c] == 0u8);
                assert(madt.bytes()[50 + 8 * c] == 0u8);
                assert(madt.bytes()[51 + 8 * c] == 0u8);
            }
            assert(spec_local_apic_records(madt.bytes(), cpu_num as int));
        }
        irq = irq + 1;
    }
    madt.push_u8(4);
    madt.push_u8(6);
    madt.push_u8(0xff);
    madt.push_u16(0);
    madt.push_u8(1);
    madt.push_u8(0x10);
    madt.push_u8(16);
    madt.push_u16(1);
    madt.push_u32(0);
    madt.push_u64(mailbox_base);
    let ghost before = madt.bytes();
    madt.update_checksum();
    proof {
        assert(madt.bytes() =~= before.update(9, madt.data@[9]));
        crate::acpi::lemma_byte_sum_update(before, 9, madt.data@[9]);
        assert(madt.bytes().subrange(4, 8) =~= le32_bytes(table_length));
        lemma_le32_at(madt.bytes(), 4, table_length);
        assert(madt.bytes().subrange(madt.size - 8, madt.size as int) =~= le64_bytes(
            mailbox_base,
        ));
        lemma_le64_at(madt.bytes(), madt.size - 8, mailbox_base);
        assert forall|c: int| 0 <= c < cpu_num implies #[trigger] madt.bytes()[44 + 8 * c] == 0u8
            && madt.bytes()[45 + 8 * c] == 8u8 && madt.bytes()[46 + 8 * c] == c as u8
            && madt.bytes()[47 + 8 * c] == c as u8 && madt.bytes()[48 + 8 * c] == 1u8
            && madt.bytes()[49 + 8 * c] == 0u8 && madt.bytes()[50 + 8 * c] == 0u8 && madt.bytes()[51
            + 8 * c] == 0u8 by {
            assert(before[44 + 8 * c] == 0u8);
            assert(before[45 + 8 * c] == 8u8);
            assert(before[46 + 8 * c] == c as u8);
            assert(before[47 + 8 * c] == c as u8);
            assert(before[48 + 8 * c] == 1u8);
            assert(before[49 + 8 * c] == 0u8);
            assert(before[50 + 8 * c] == 0u8);
            assert(before[51 + 8 * c] == 0u8);
        }
        assert(spec_local_apic_records(madt.bytes(), cpu_num as int));
    }
    madt
}

/// One page accepted by the hypercall layer is 4 KiB; pages are accepted
/// two at a time.
pub const PAGE_ACCEPT_CHUNK_SIZE: u64 = 0x2000;

/// The addresses of `pages` consecutive 4 KiB pages starting at `address`:
/// the pages one chunk hands to the acceptance hypercall, in order.
#[verifier::loop_isolation(false)]
pub fn td_accept_page(address: u64, pages: u64) -> (r: Vec<u64>)
    requires
        address + pages * 0x1000 <= u64::MAX as int + 1,
    ensures
        r@.len() == pages,
        forall|i: int| 0 <= i < pages ==> r@[i] == address + i * 0x1000,
{
    let mut r: Vec<u64> = Vec::new();
    let mut i: u64 = 0;
    while i < pages
        invariant
            i <= pages,
            r@.len() == i,
            forall|j: int| 0 <= j < i ==> r@[j] == address + j * 0x1000,
        decreases pages - i,
    {
        assert((i + 1) * 0x1000 <= pages * 0x1000) by (nonlinear_arith)
            requires
                i < pages,
        ;
        r.push(address + i * 0x1000);
        i = i + 1;
    }
    r
}

/// The addresses of every 4 KiB page that accepting the resource range
/// `[address, address + size)` in whole chunks hands to the hypercall
/// layer, in order: two pages per chunk of `PAGE_ACCEPT_CHUNK_SIZE` bytes,
/// a trailing partial chunk left unaccepted.
#[verifier::loop_isolation(false)]
pub fn mp_accept_memory_resource_range(address: u64, size: u64) -> (r: Vec<u64>)
    requires
        address + size <= u64::MAX as int + 1,
    ensures
        r@.len() == 2 * (size as int / 0x2000),
        forall|k: int| 0 <= k < r@.len() ==> r@[k] == address + k * 0x1000,
{
    let chunks = size / PAGE_ACCEPT_CHUNK_SIZE;
    proof {
        vstd::arithmetic::div_mod::lemma_fundamental_div_mod(size as int, 0x2000);
    }
    let mut r: Vec<u64> = Vec::new();
    let mut i: u64 = 0;
    while i < chunks
        invariant
            i <= chunks,
            chunks * 0x2000 <= size,
            r@.len() == 2 * i,
            forall|k: int| 0 <= k < r@.len() ==> r@[k] == address + k * 0x1000,
        decreases chunks - i,
    {
        assert((i + 1) * 0x2000 <= chunks * 0x2000) by (nonlinear_arith)
            requires
                i < chunks,
        ;
        let chunk_base = address + i * PAGE_ACCEPT_CHUNK_SIZE;
        let pages = PAGE_ACCEPT_CHUNK_SIZE >> 12;
        assert(0x2000u64 >> 12u64 == 2u64) by (bit_vector);
        let mut accepted = td_accept_page(chunk_base, pages);
        r.append(&mut accepted);
        i = i + 1;
    }
    r
}

} // verus!

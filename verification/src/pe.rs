//! PE32+ header validation and section-table parsing.
//!
//! Every length check is performed, and must pass, before the corresponding
//! byte read: the validator and the parser never touch a byte whose offset
//! has not been bounded against the buffer first.

use crate::bytes::{le16, le32, read_le_u16, read_le_u32};
use vstd::prelude::*;

verus! {

/// Failure of the section-table parser.
#[derive(Clone, Copy, Debug, PartialEq, Eq, Structural)]
pub enum ParseError {
    /// The buffer is shorter than the requested number of 40-byte records.
    Truncated,
    /// A descriptor's offset + size arithmetic would overflow the machine word.
    Malformed,
}

/// The `e_lfanew` field of the DOS header: the offset of the PE signature,
/// stored little-endian at 0x3c.
pub open spec fn spec_e_lfanew(s: Seq<u8>) -> int
    recommends
        s.len() >= 0x40,
{
    le32(s, 0x3c) as int
}

/// A byte sequence is a well-formed PE32+ image head: it is at least 0x40
/// bytes long, starts with "MZ", leaves room at `e_lfanew` for the PE
/// signature, the COFF header and the optional-header magic, carries the
/// "PE\0\0" signature there, and its optional-header magic is 0x20b.
pub open spec fn spec_is_pe(s: Seq<u8>) -> bool {
    let e = spec_e_lfanew(s);
    &&& s.len() >= 0x40
    &&& s[0] == 0x4du8
    &&& s[1] == 0x5au8
    &&& e + 26 <= s.len()
    &&& s[e] == 0x50u8
    &&& s[e + 1] == 0x45u8
    &&& s[e + 2] == 0x00u8
    &&& s[e + 3] == 0x00u8
    &&& le16(s, e + 24) == 0x20b
}

/// Reports whether `pe_image` is a well-formed PE32+ image head.  Returns
/// false for any input on which some bound or magic check fails; never
/// reads a byte before the bound covering it has passed.
pub fn is_pe(pe_image: &[u8]) -> (r: bool)
    ensures
        r == spec_is_pe(pe_image@),
{
    let n = pe_image.len();
    if n < 0x40 {
        return false;
    }
    if pe_image[0] != 0x4d || pe_image[1] != 0x5a {
        return false;
    }
    let e = read_le_u32(pe_image, 0x3c) as usize;
    if e > n - 26 {
        return false;
    }
    if pe_image[e] != 0x50 || pe_image[e + 1] != 0x45 || pe_image[e + 2] != 0x00 || pe_image[e
        + 3] != 0x00 {
        return false;
    }
    read_le_u16(pe_image, e + 24) == 0x20b
}

/// Law: a byte sequence shorter than 0x40 bytes is never accepted as PE.
pub proof fn lemma_short_image_not_pe(s: Seq<u8>)
    requires
        s.len() < 0x40,
    ensures
        !spec_is_pe(s),
{
}

/// Law: an image whose `e_lfanew` leaves no room for the PE header chain
/// (`e_lfanew + 24` exceeds the image length) is never accepted as PE.
pub proof fn lemma_lfanew_out_of_range_not_pe(s: Seq<u8>)
    requires
        s.len() >= 0x40,
        spec_e_lfanew(s) + 24 > s.len(),
    ensures
        !spec_is_pe(s),
{
}

/// One entry of the section table: the fields of a 40-byte section header
/// record that the loader reads.
#[derive(Clone, Copy, Debug, PartialEq, Eq)]
pub struct SectionDescriptor {
    /// The 8-byte section name, kept verbatim.
    pub name: [u8; 8],
    /// RVA at which the section is placed in the destination.
    pub virtual_address: u32,
    /// Size the section occupies in the destination.
    pub virtual_size: u32,
    /// Offset of the section's raw bytes inside the image.
    pub raw_data_ptr: u32,
    /// Length of the section's raw bytes inside the image.
    pub raw_data_size: u32,
}

/// `s` holds exactly the fields encoded in the 40-byte record at index `i`
/// of `b`: name at +0, virtual size at +8, virtual address at +12, raw data
/// size at +16 and raw data pointer at +20, integers little-endian.
pub open spec fn spec_section_matches(b: Seq<u8>, i: int, s: SectionDescriptor) -> bool {
    &&& s.name@ == b.subrange(40 * i, 40 * i + 8)
    &&& s.virtual_size == le32(b, 40 * i + 8)
    &&& s.virtual_address == le32(b, 40 * i + 12)
    &&& s.raw_data_size == le32(b, 40 * i + 16)
    &&& s.raw_data_ptr == le32(b, 40 * i + 20)
}

/// The offset + size sums of the record at index `i` of `b` fit in the
/// machine word.
pub open spec fn spec_record_arith_ok(b: Seq<u8>, i: int) -> bool {
    &&& le32(b, 40 * i + 12) + le32(b, 40 * i + 8) <= usize::MAX
    &&& le32(b, 40 * i + 20) + le32(b, 40 * i + 16) <= usize::MAX
}

/// Decodes `count` fixed 40-byte section header records from the front of
/// `buffer`, in table order.  Table order is kept: later sections
/// legitimately overwrite earlier ones during the copy.  Fails with
/// `Truncated` exactly when the buffer cannot hold `count` records, and
/// with `Malformed` exactly when some record's offset + size arithmetic
/// would overflow the machine word.
pub fn parse_sections(buffer: &[u8], count: usize) -> (r: Result<
    Vec<SectionDescriptor>,
    ParseError,
>)
    ensures
        match r {
            Ok(v) => {
                &&& buffer@.len() >= count * 40
                &&& v@.len() == count
                &&& forall|i: int|
                    0 <= i < count ==> spec_section_matches(buffer@, i, #[trigger] v@[i])
                &&& forall|i: int| 0 <= i < count ==> spec_record_arith_ok(buffer@, i)
            },
            Err(ParseError::Truncated) => buffer@.len() < count * 40,
            Err(ParseError::Malformed) => {
                &&& buffer@.len() >= count * 40
                &&& exists|i: int| 0 <= i < count && !spec_record_arith_ok(buffer@, i)
            },
        },
{
    let buffer_len = buffer.len();
    let total = match count.checked_mul(40) {
        Some(t) => t,
        None => {
            return Err(ParseError::Truncated);
        },
    };
    if buffer_len < total {
        return Err(ParseError::Truncated);
    }
    let mut out: Vec<SectionDescriptor> = Vec::new();
    let mut i: usize = 0;
    while i < count
        invariant
            i <= count,
            buffer@.len() >= count * 40,
            count * 40 <= usize::MAX,
            out@.len() == i,
            forall|j: int| 0 <= j < i ==> spec_section_matches(buffer@, j, #[trigger] out@[j]),
            forall|j: int| 0 <= j < i ==> spec_record_arith_ok(buffer@, j),
        decreases count - i,
    {
        assert((i + 1) * 40 <= count * 40) by (nonlinear_arith)
            requires
                i < count,
        ;
        let base = i * 40;
        let mut name = [0u8; 8];
        let mut j: usize = 0;
        while j < 8
            invariant
                j <= 8,
                buffer@.len() >= base + 40,
                base + 40 <= usize::MAX,
                forall|k: int| 0 <= k < j ==> name@[k] == buffer@[base + k],
            decreases 8 - j,
        {
            name[j] = buffer[base + j];
            j = j + 1;
        }
        assert(name@ =~= buffer@.subrange(40 * (i as int), 40 * (i as int) + 8));
        let virtual_size = read_le_u32(buffer, base + 8);
        let virtual_address = read_le_u32(buffer, base + 12);
        let raw_data_size = read_le_u32(buffer, base + 16);
        let raw_data_ptr = read_le_u32(buffer, base + 20);
        if (virtual_address as usize).checked_add(virtual_size as usize).is_none() {
            assert(!spec_record_arith_ok(buffer@, i as int));
            return Err(ParseError::Malformed);
        }
        if (raw_data_ptr as usize).checked_add(raw_data_size as usize).is_none() {
            assert(!spec_record_arith_ok(buffer@, i as int));
            return Err(ParseError::Malformed);
        }
        out.push(
            SectionDescriptor {
                name,
                virtual_address,
                virtual_size,
                raw_data_ptr,
                raw_data_size,
            },
        );
        i = i + 1;
    }
    Ok(out)
}

} // verus!

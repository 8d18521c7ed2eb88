//! Per-section copier and the one-pass load-and-relocate entry point.
//!
//! Each section's raw bytes are copied to its virtual address in the
//! caller-owned destination buffer, the virtual-size gap is zero-filled,
//! and the base-relocation directory is then walked in place.  A bounds
//! violation aborts the whole load: a partially loaded image is never
//! handed back as usable.

use crate::bytes::{le16, le32, le64, read_le_u16, read_le_u32, read_le_u64};
use crate::pe::{
    is_pe, parse_sections, spec_e_lfanew, spec_is_pe, spec_record_arith_ok, spec_section_matches,
    ParseError, SectionDescriptor,
};
use crate::reloc::{apply_relocations, spec_apply_blocks, RelocationError};
use vstd::prelude::*;
use vstd::slice::slice_subrange;

verus! {

/// Failure of the whole load.
#[derive(Clone, Copy, Debug, PartialEq, Eq, Structural)]
pub enum LoadError {
    /// The DOS/COFF/optional-header chain is malformed or truncated.
    Validation,
    /// The section table could not be decoded.
    Parse(ParseError),
    /// A section would read outside the image or write outside the
    /// destination.
    SectionOutOfBounds,
    /// The relocation walk failed; the destination must be discarded.
    Relocation(RelocationError),
}

/// Number of sections, from the COFF header at `e_lfanew + 6`.
pub open spec fn spec_num_sections(s: Seq<u8>) -> int {
    le16(s, spec_e_lfanew(s) + 6) as int
}

/// Declared optional-header size, from the COFF header at `e_lfanew + 20`.
pub open spec fn spec_opt_header_size(s: Seq<u8>) -> int {
    le16(s, spec_e_lfanew(s) + 20) as int
}

/// Offset of the section table: past the PE signature, the COFF header and
/// the declared optional header.
pub open spec fn spec_sections_off(s: Seq<u8>) -> int {
    spec_e_lfanew(s) + 24 + spec_opt_header_size(s)
}

/// The bytes from the section table to the end of the image.
pub open spec fn spec_section_table(s: Seq<u8>) -> Seq<u8> {
    s.subrange(spec_sections_off(s), s.len() as int)
}

/// RVA of the base-relocation directory: sixth entry of the data-directory
/// array that starts 112 bytes into the optional header.
pub open spec fn spec_reloc_dir_rva(s: Seq<u8>) -> u32 {
    le32(s, spec_e_lfanew(s) + 176)
}

/// Size of the base-relocation directory.
pub open spec fn spec_reloc_dir_size(s: Seq<u8>) -> u32 {
    le32(s, spec_e_lfanew(s) + 180)
}

/// The header chain reaches every field the loader reads: the image is
/// PE32+, the optional header extends through the base-relocation
/// directory entry (184 = 24 header bytes + 160 through that entry), and
/// the declared section-table offset lies inside the image.
pub open spec fn spec_header_valid(s: Seq<u8>) -> bool {
    &&& spec_is_pe(s)
    &&& spec_e_lfanew(s) + 184 <= s.len()
    &&& spec_sections_off(s) <= s.len()
}

/// The section's destination range lies inside the destination buffer and
/// its raw range inside the image.
pub open spec fn spec_section_fits(s: SectionDescriptor, image_len: int, dest_len: int) -> bool {
    &&& s.virtual_address + s.virtual_size <= dest_len
    &&& s.raw_data_ptr + s.raw_data_size <= image_len
}

/// Same bound, stated on the raw 40-byte record at index `i` of the table.
pub open spec fn spec_record_fits(b: Seq<u8>, i: int, image_len: int, dest_len: int) -> bool {
    &&& le32(b, 40 * i + 12) + le32(b, 40 * i + 8) <= dest_len
    &&& le32(b, 40 * i + 20) + le32(b, 40 * i + 16) <= image_len
}

/// `secs` are exactly the `count` descriptors of the table bytes `b`, in
/// table order.
pub open spec fn spec_sections_match(b: Seq<u8>, count: int, secs: Seq<SectionDescriptor>) -> bool {
    &&& secs.len() == count
    &&& forall|i: int| 0 <= i < count ==> spec_section_matches(b, i, #[trigger] secs[i])
}

/// The destination after loading one section: `min(raw, virtual)` raw bytes
/// placed at the virtual address, a zero-filled gap up to the virtual size,
/// everything else untouched.
#[verifier::opaque]
pub open spec fn spec_copy_section(dest: Seq<u8>, image: Seq<u8>, s: SectionDescriptor) -> Seq<
    u8,
>
    recommends
        spec_section_fits(s, image.len() as int, dest.len() as int),
{
    let va = s.virtual_address as int;
    let vs = s.virtual_size as int;
    let rp = s.raw_data_ptr as int;
    let rs = s.raw_data_size as int;
    let m = if rs < vs {
        rs
    } else {
        vs
    };
    Seq::new(
        dest.len(),
        |k: int|
            if va <= k < va + m {
                image[rp + (k - va)]
            } else if va + m <= k < va + vs {
                0u8
            } else {
                dest[k]
            },
    )
}

/// The destination after loading every section of `secs` in table order;
/// later sections overwrite earlier ones where virtual ranges overlap.
pub open spec fn spec_copy_sections(
    dest: Seq<u8>,
    image: Seq<u8>,
    secs: Seq<SectionDescriptor>,
) -> Seq<u8>
    decreases secs.len(),
{
    if secs.len() == 0 {
        dest
    } else {
        spec_copy_section(spec_copy_sections(dest, image, secs.drop_last()), image, secs.last())
    }
}

/// Loading a section never changes the destination's length.
pub proof fn lemma_copy_section_len(dest: Seq<u8>, image: Seq<u8>, s: SectionDescriptor)
    ensures
        spec_copy_section(dest, image, s).len() == dest.len(),
{
    reveal(spec_copy_section);
}

/// Loading a section list never changes the destination's length.
pub proof fn lemma_copy_sections_len(dest: Seq<u8>, image: Seq<u8>, secs: Seq<SectionDescriptor>)
    ensures
        spec_copy_sections(dest, image, secs).len() == dest.len(),
    decreases secs.len(),
{
    if secs.len() > 0 {
        lemma_copy_sections_len(dest, image, secs.drop_last());
        lemma_copy_section_len(spec_copy_sections(dest, image, secs.drop_last()), image, secs.last());
    }
}

/// Copies one section into the destination: `min(raw, virtual)` bytes from
/// the image, then the zero-filled gap.  The caller has already checked
/// both bounds.
#[verifier::loop_isolation(false)]
fn copy_section(destination: &mut Vec<u8>, image: &[u8], s: &SectionDescriptor)
    requires
        s.virtual_address + s.virtual_size <= old(destination)@.len(),
        s.raw_data_ptr + s.raw_data_size <= image@.len(),
    ensures
        final(destination)@ == spec_copy_section(old(destination)@, image@, *s),
        final(destination)@.len() == old(destination)@.len(),
{
    let dlen = destination.len();
    let ilen = image.len();
    let va = s.virtual_address as usize;
    let vs = s.virtual_size as usize;
    let rp = s.raw_data_ptr as usize;
    let rs = s.raw_data_size as usize;
    let m = if rs < vs {
        rs
    } else {
        vs
    };
    let mut k: usize = 0;
    while k < m
        invariant
            k <= m,
            destination@.len() == old(destination)@.len(),
            forall|j: int|
                va <= j < va + k ==> #[trigger] destination@[j] == image@[rp + (j - va)],
            forall|j: int|
                0 <= j < destination@.len() && !(va <= j < va + k) ==> #[trigger] destination@[j]
                    == old(destination)@[j],
        decreases m - k,
    {
        destination[va + k] = image[rp + k];
        k = k + 1;
    }
    let mut k: usize = m;
    while k < vs
        invariant
            m <= k <= vs,
            destination@.len() == old(destination)@.len(),
            forall|j: int|
                va <= j < va + m ==> #[trigger] destination@[j] == image@[rp + (j - va)],
            forall|j: int| va + m <= j < va + k ==> #[trigger] destination@[j] == 0u8,
            forall|j: int|
                0 <= j < destination@.len() && !(va <= j < va + k) ==> #[trigger] destination@[j]
                    == old(destination)@[j],
        decreases vs - k,
    {
        destination[va + k] = 0u8;
        k = k + 1;
    }
    proof {
        reveal(spec_copy_section);
        assert(destination@ =~= spec_copy_section(old(destination)@, image@, *s));
    }
}

/// Loads a PE32+ image into the destination buffer and relocates it in one
/// synchronous pass: validate the header chain, parse the section table,
/// copy every section to its virtual address (later sections win where
/// ranges overlap), then patch every DIR64 relocation by `load_delta`.
/// Returns the section descriptors in table order so that the caller can
/// observe each loaded section.  On any failure the returned error names
/// the stage exactly and the destination must be discarded; its length
/// never changes.
#[verifier::rlimit(100)]
#[verifier::loop_isolation(false)]
pub fn relocate_pe_mem_with_per_sections(
    image: &[u8],
    destination: &mut Vec<u8>,
    load_delta: i64,
) -> (r: Result<Vec<SectionDescriptor>, LoadError>)
    ensures
        final(destination)@.len() == old(destination)@.len(),
        match r {
            Ok(secs) => {
                &&& spec_header_valid(image@)
                &&& spec_sections_match(
                    spec_section_table(image@),
                    spec_num_sections(image@),
                    secs@,
                )
                &&& forall|i: int|
                    0 <= i < secs@.len() ==> spec_section_fits(
                        #[trigger] secs@[i],
                        image@.len() as int,
                        old(destination)@.len() as int,
                    )
                &&& spec_apply_blocks(
                    spec_copy_sections(old(destination)@, image@, secs@),
                    spec_reloc_dir_rva(image@) as int,
                    spec_reloc_dir_size(image@) as int,
                    load_delta,
                    0,
                ) == Ok::<Seq<u8>, RelocationError>(final(destination)@)
            },
            Err(LoadError::Validation) => !spec_header_valid(image@),
            Err(LoadError::Parse(pe)) => {
                &&& spec_header_valid(image@)
                &&& match pe {
                    ParseError::Truncated => spec_section_table(image@).len() < spec_num_sections(
                        image@,
                    ) * 40,
                    ParseError::Malformed => {
                        &&& spec_section_table(image@).len() >= spec_num_sections(image@) * 40
                        &&& exists|i: int|
                            0 <= i < spec_num_sections(image@) && !spec_record_arith_ok(
                                spec_section_table(image@),
                                i,
                            )
                    },
                }
            },
            Err(LoadError::SectionOutOfBounds) => {
                &&& spec_header_valid(image@)
                &&& exists|i: int|
                    0 <= i < spec_num_sections(image@) && !spec_record_fits(
                        spec_section_table(image@),
                        i,
                        image@.len() as int,
                        old(destination)@.len() as int,
                    )
            },
            Err(LoadError::Relocation(re)) => {
                &&& spec_header_valid(image@)
                &&& exists|secs: Seq<SectionDescriptor>|
                    (
                    {
                        &&& spec_sections_match(
                            spec_section_table(image@),
                            spec_num_sections(image@),
                            secs,
                        )
                        &&& spec_apply_blocks(
                            spec_copy_sections(old(destination)@, image@, secs),
                            spec_reloc_dir_rva(image@) as int,
                            spec_reloc_dir_size(image@) as int,
                            load_delta,
                            0,
                        ) == Err::<Seq<u8>, RelocationError>(re)
                    }
                    )
            },
        },
{
    if !is_pe(image) {
        return Err(LoadError::Validation);
    }
    let n = image.len();
    let e = read_le_u32(image, 0x3c) as usize;
    if n < 184 || e > n - 184 {
        return Err(LoadError::Validation);
    }
    let num_sections = read_le_u16(image, e + 6) as usize;
    let opt_size = read_le_u16(image, e + 20) as usize;
    let dir_rva = read_le_u32(image, e + 176);
    let dir_size = read_le_u32(image, e + 180);
    if opt_size > n - e - 24 {
        return Err(LoadError::Validation);
    }
    let sections_off = e + 24 + opt_size;
    let table = slice_subrange(image, sections_off, n);
    proof {
        assert(table@ == spec_section_table(image@));
    }
    let secs = match parse_sections(table, num_sections) {
        Ok(v) => v,
        Err(pe) => {
            return Err(LoadError::Parse(pe));
        },
    };
    let dlen = destination.len();
    let ghost orig: Seq<u8> = destination@;
    let mut i: usize = 0;
    while i < num_sections
        invariant
            i <= num_sections,
            secs@.len() == num_sections,
            destination@.len() == orig.len(),
            destination@ == spec_copy_sections(orig, image@, secs@.take(i as int)),
            forall|j: int|
                0 <= j < i ==> spec_section_fits(
                    #[trigger] secs@[j],
                    image@.len() as int,
                    orig.len() as int,
                ),
        decreases num_sections - i,
    {
        let s = secs[i];
        proof {
            assert(spec_section_matches(table@, i as int, s));
            assert(spec_record_arith_ok(table@, i as int));
        }
        let va_end = s.virtual_address as usize + s.virtual_size as usize;
        if va_end > dlen {
            assert(!spec_record_fits(
                table@,
                i as int,
                image@.len() as int,
                orig.len() as int,
            ));
            return Err(LoadError::SectionOutOfBounds);
        }
        let rp_end = s.raw_data_ptr as usize + s.raw_data_size as usize;
        if rp_end > n {
            assert(!spec_record_fits(
                table@,
                i as int,
                image@.len() as int,
                orig.len() as int,
            ));
            return Err(LoadError::SectionOutOfBounds);
        }
        copy_section(destination, image, &s);
        proof {
            assert(secs@.take(i + 1).drop_last() =~= secs@.take(i as int));
            assert(secs@.take(i + 1).last() == secs@[i as int]);
        }
        i = i + 1;
    }
    proof {
        assert(secs@.take(num_sections as int) =~= secs@);
        assert(spec_header_valid(image@));
        assert(spec_sections_match(
            spec_section_table(image@),
            spec_num_sections(image@),
            secs@,
        ));
        assert(destination@ == spec_copy_sections(orig, image@, secs@));
        assert(dir_rva == spec_reloc_dir_rva(image@));
        assert(dir_size == spec_reloc_dir_size(image@));
    }
    match apply_relocations(destination, dir_rva as usize, dir_size as usize, load_delta) {
        Ok(()) => Ok(secs),
        Err(re) => Err(LoadError::Relocation(re)),
    }
}

/// No section after index `i` overlaps section `i`'s virtual range.
pub open spec fn spec_no_later_overlap(secs: Seq<SectionDescriptor>, i: int) -> bool {
    forall|j: int|
        i < j < secs.len() ==> ((#[trigger] secs[j]).virtual_address + secs[j].virtual_size
            <= secs[i].virtual_address || secs[i].virtual_address + secs[i].virtual_size
            <= secs[j].virtual_address)
}

/// Law (round trip): after the copy pass, a section that no later section
/// overlaps holds its raw image bytes at its virtual address, and zero in
/// the gap between its raw data size and its virtual size.
pub proof fn lemma_copy_sections_round_trip(
    dest: Seq<u8>,
    image: Seq<u8>,
    secs: Seq<SectionDescriptor>,
    i: int,
    k: int,
)
    requires
        0 <= i < secs.len(),
        forall|j: int|
            0 <= j < secs.len() ==> spec_section_fits(
                #[trigger] secs[j],
                image.len() as int,
                dest.len() as int,
            ),
        spec_no_later_overlap(secs, i),
        0 <= k < secs[i].virtual_size,
    ensures
        k < secs[i].raw_data_size ==> spec_copy_sections(dest, image, secs)[secs[i].virtual_address
            + k] == image[secs[i].raw_data_ptr + k],
        secs[i].raw_data_size <= k ==> spec_copy_sections(
            dest,
            image,
            secs,
        )[secs[i].virtual_address + k] == 0u8,
    decreases secs.len(),
{
    reveal(spec_copy_section);
    lemma_copy_sections_len(dest, image, secs.drop_last());
    if i < secs.len() - 1 {
        assert(forall|j: int| 0 <= j < secs.len() - 1 ==> secs.drop_last()[j] == #[trigger] secs[j]);
        lemma_copy_sections_round_trip(dest, image, secs.drop_last(), i, k);
        lemma_copy_sections_len(dest, image, secs);
    }
}

/// Preferred image base, read from the optional header at `e_lfanew + 48`
/// when the header chain reaches it.  The caller subtracts it from the
/// actual load address to obtain the load delta for relocation.
pub fn preferred_image_base(pe_image: &[u8]) -> (r: Option<u64>)
    ensures
        match r {
            Some(v) => {
                &&& spec_is_pe(pe_image@)
                &&& spec_e_lfanew(pe_image@) + 56 <= pe_image@.len()
                &&& v == le64(pe_image@, spec_e_lfanew(pe_image@) + 48)
            },
            None => !(spec_is_pe(pe_image@) && spec_e_lfanew(pe_image@) + 56 <= pe_image@.len()),
        },
{
    if !is_pe(pe_image) {
        return None;
    }
    let n = pe_image.len();
    let e = read_le_u32(pe_image, 0x3c) as usize;
    if e > n - 56 {
        return None;
    }
    Some(read_le_u64(pe_image, e + 48))
}

} // verus!

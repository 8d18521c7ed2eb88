//! Base-relocation engine.
//!
//! Walks the relocation blocks that live inside the already-populated
//! destination buffer and patches every DIR64 entry by the caller-supplied
//! load delta.  Every target offset is bounds-checked against the buffer
//! before the read and before the write; the walk is specified exactly by
//! `spec_apply_blocks`, byte for byte.

use crate::bytes::{le16, le32, le64, write64};
use crate::bytes::{lemma_write64_identity, lemma_write64_read_back};
use crate::bytes::{read_le_u16, read_le_u32, vec_read_le_u64, write_le_u64};
use vstd::prelude::*;

verus! {

/// Failure of the relocation engine.
#[derive(Clone, Copy, Debug, PartialEq, Eq, Structural)]
pub enum RelocationError {
    /// A block header, block body or fixup target lies outside the buffer,
    /// or a block length is shorter than its own header.
    OutOfBounds,
    /// An entry carries a relocation type other than ABSOLUTE or DIR64.
    UnsupportedType,
}

/// Relocation type ABSOLUTE: explicit padding, skipped with no effect.
pub const RELOC_TYPE_ABSOLUTE: u16 = 0x0;

/// Relocation type DIR64: a 64-bit absolute address to be patched.
pub const RELOC_TYPE_DIR64: u16 = 0xa;

/// 64-bit wrapping addition of a signed delta, the arithmetic a relocation
/// fixup performs.
pub open spec fn wrap_add64(v: u64, delta: i64) -> u64 {
    if v + delta > u64::MAX {
        (v + delta - 0x10000000000000000) as u64
    } else if v + delta < 0 {
        (v + delta + 0x10000000000000000) as u64
    } else {
        (v + delta) as u64
    }
}

/// The buffer after applying the next `n` two-byte relocation entries found
/// at `entries_off`, for the page starting at `page_rva`.  Entries are read
/// from the buffer as it stands when each is reached, exactly as the
/// executable walk does.
pub open spec fn spec_apply_entries(
    d: Seq<u8>,
    entries_off: int,
    n: nat,
    page_rva: int,
    delta: i64,
) -> Result<Seq<u8>, RelocationError>
    decreases n,
{
    if n == 0 {
        Ok(d)
    } else {
        let e = le16(d, entries_off);
        let ty = e / 0x1000;
        let target = page_rva + (e % 0x1000);
        if ty == RELOC_TYPE_ABSOLUTE {
            spec_apply_entries(d, entries_off + 2, (n - 1) as nat, page_rva, delta)
        } else if ty == RELOC_TYPE_DIR64 {
            if target + 8 > d.len() {
                Err(RelocationError::OutOfBounds)
            } else {
                spec_apply_entries(
                    write64(d, target, wrap_add64(le64(d, target), delta)),
                    entries_off + 2,
                    (n - 1) as nat,
                    page_rva,
                    delta,
                )
            }
        } else {
            Err(RelocationError::UnsupportedType)
        }
    }
}

/// The buffer after walking the relocation blocks of the directory at
/// `dir_rva`, `consumed` bytes of `dir_size` already behind.  The walk ends
/// when the directory is exhausted or a size-zero terminator block is met;
/// it fails when a block header or body leaves the buffer, a block is
/// shorter than its own header, or an entry is of an unsupported type.
pub open spec fn spec_apply_blocks(
    d: Seq<u8>,
    dir_rva: int,
    dir_size: int,
    delta: i64,
    consumed: int,
) -> Result<Seq<u8>, RelocationError>
    decreases dir_size - consumed,
{
    if consumed >= dir_size {
        Ok(d)
    } else if dir_rva + consumed + 8 > d.len() {
        Err(RelocationError::OutOfBounds)
    } else {
        let page_rva = le32(d, dir_rva + consumed) as int;
        let block_size = le32(d, dir_rva + consumed + 4) as int;
        if block_size == 0 {
            Ok(d)
        } else if block_size < 8 || consumed + block_size > dir_size || dir_rva + consumed
            + block_size > d.len() {
            Err(RelocationError::OutOfBounds)
        } else {
            match spec_apply_entries(
                d,
                dir_rva + consumed + 8,
                ((block_size - 8) / 2) as nat,
                page_rva,
                delta,
            ) {
                Ok(d2) => spec_apply_blocks(d2, dir_rva, dir_size, delta, consumed + block_size),
                Err(err) => Err(err),
            }
        }
    }
}

/// Applying entries never changes the buffer's length.
pub proof fn lemma_apply_entries_len(
    d: Seq<u8>,
    entries_off: int,
    n: nat,
    page_rva: int,
    delta: i64,
)
    requires
        0 <= page_rva,
    ensures
        match spec_apply_entries(d, entries_off, n, page_rva, delta) {
            Ok(d2) => d2.len() == d.len(),
            Err(_) => true,
        },
    decreases n,
{
    if n > 0 {
        let e = le16(d, entries_off);
        let ty = e / 0x1000;
        let target = page_rva + (e % 0x1000);
        if ty == RELOC_TYPE_ABSOLUTE {
            lemma_apply_entries_len(d, entries_off + 2, (n - 1) as nat, page_rva, delta);
        } else if ty == RELOC_TYPE_DIR64 && target + 8 <= d.len() {
            lemma_write64_read_back(d, target, wrap_add64(le64(d, target), delta));
            lemma_apply_entries_len(
                write64(d, target, wrap_add64(le64(d, target), delta)),
                entries_off + 2,
                (n - 1) as nat,
                page_rva,
                delta,
            );
        }
    }
}

/// Walking blocks never changes the buffer's length.
pub proof fn lemma_apply_blocks_len(
    d: Seq<u8>,
    dir_rva: int,
    dir_size: int,
    delta: i64,
    consumed: int,
)
    ensures
        match spec_apply_blocks(d, dir_rva, dir_size, delta, consumed) {
            Ok(d2) => d2.len() == d.len(),
            Err(_) => true,
        },
    decreases dir_size - consumed,
{
    if consumed < dir_size && dir_rva + consumed + 8 <= d.len() {
        let page_rva = le32(d, dir_rva + consumed) as int;
        let block_size = le32(d, dir_rva + consumed + 4) as int;
        if block_size >= 8 && consumed + block_size <= dir_size && dir_rva + consumed + block_size
            <= d.len() {
            let n = ((block_size - 8) / 2) as nat;
            lemma_apply_entries_len(d, dir_rva + consumed + 8, n, page_rva, delta);
            match spec_apply_entries(d, dir_rva + consumed + 8, n, page_rva, delta) {
                Ok(d2) => {
                    lemma_apply_blocks_len(d2, dir_rva, dir_size, delta, consumed + block_size);
                },
                Err(_) => {},
            }
        }
    }
}

/// Law: after patching a DIR64 target, the little-endian 64-bit value there
/// equals the original value plus the load delta (wrapping); only the eight
/// target bytes change; and with a zero delta the buffer is left unchanged.
pub proof fn lemma_dir64_patch(d: Seq<u8>, target: int, delta: i64)
    requires
        0 <= target,
        target + 8 <= d.len(),
    ensures
        le64(write64(d, target, wrap_add64(le64(d, target), delta)), target) == wrap_add64(
            le64(d, target),
            delta,
        ),
        forall|k: int|
            0 <= k < d.len() && !(target <= k < target + 8) ==> write64(
                d,
                target,
                wrap_add64(le64(d, target), delta),
            )[k] == d[k],
        delta == 0 ==> write64(d, target, wrap_add64(le64(d, target), delta)) == d,
{
    lemma_write64_read_back(d, target, wrap_add64(le64(d, target), delta));
    if delta == 0 {
        assert(wrap_add64(le64(d, target), 0) == le64(d, target));
        lemma_write64_identity(d, target);
    }
}

/// Law: with a zero load delta, applying a block's entries leaves the
/// buffer unchanged whenever it succeeds.
#[verifier::rlimit(100)]
pub proof fn lemma_entries_zero_delta_identity(d: Seq<u8>, entries_off: int, n: nat, page_rva: int)
    requires
        0 <= page_rva,
    ensures
        match spec_apply_entries(d, entries_off, n, page_rva, 0) {
            Ok(d2) => d2 == d,
            Err(_) => true,
        },
    decreases n,
{
    if n > 0 {
        let e = le16(d, entries_off);
        let ty = e / 0x1000;
        let target = page_rva + (e % 0x1000);
        if ty == RELOC_TYPE_ABSOLUTE {
            lemma_entries_zero_delta_identity(d, entries_off + 2, (n - 1) as nat, page_rva);
        } else if ty == RELOC_TYPE_DIR64 && target + 8 <= d.len() {
            lemma_dir64_patch(d, target, 0);
            lemma_entries_zero_delta_identity(
                write64(d, target, wrap_add64(le64(d, target), 0)),
                entries_off + 2,
                (n - 1) as nat,
                page_rva,
            );
        }
    }
}

/// Law (idempotence at delta zero): a relocation walk with `load_delta = 0`
/// leaves the destination buffer unchanged whenever it succeeds.
pub proof fn lemma_blocks_zero_delta_identity(
    d: Seq<u8>,
    dir_rva: int,
    dir_size: int,
    consumed: int,
)
    ensures
        match spec_apply_blocks(d, dir_rva, dir_size, 0, consumed) {
            Ok(d2) => d2 == d,
            Err(_) => true,
        },
    decreases dir_size - consumed,
{
    if consumed < dir_size && dir_rva + consumed + 8 <= d.len() {
        let page_rva = le32(d, dir_rva + consumed) as int;
        let block_size = le32(d, dir_rva + consumed + 4) as int;
        if block_size >= 8 && consumed + block_size <= dir_size && dir_rva + consumed + block_size
            <= d.len() {
            let n = ((block_size - 8) / 2) as nat;
            lemma_entries_zero_delta_identity(d, dir_rva + consumed + 8, n, page_rva);
            match spec_apply_entries(d, dir_rva + consumed + 8, n, page_rva, 0) {
                Ok(d2) => {
                    lemma_blocks_zero_delta_identity(d2, dir_rva, dir_size, consumed + block_size);
                },
                Err(_) => {},
            }
        }
    }
}

/// Walks the base-relocation directory at `dir_rva` inside `destination`
/// and patches every DIR64 entry by `load_delta`.  The result is exactly
/// the walk `spec_apply_blocks` describes: on success the buffer equals the
/// specified patched bytes; on failure the walk's error is returned and the
/// caller must discard the whole load.  The buffer's length never changes.
#[verifier::rlimit(100)]
#[verifier::loop_isolation(false)]
pub fn apply_relocations(
    destination: &mut Vec<u8>,
    dir_rva: usize,
    dir_size: usize,
    load_delta: i64,
) -> (r: Result<(), RelocationError>)
    ensures
        final(destination)@.len() == old(destination)@.len(),
        match r {
            Ok(()) => spec_apply_blocks(
                old(destination)@,
                dir_rva as int,
                dir_size as int,
                load_delta,
                0,
            ) == Ok::<Seq<u8>, RelocationError>(final(destination)@),
            Err(e) => spec_apply_blocks(
                old(destination)@,
                dir_rva as int,
                dir_size as int,
                load_delta,
                0,
            ) == Err::<Seq<u8>, RelocationError>(e),
        },
{
    let ghost orig: Seq<u8> = destination@;
    let ghost rva: int = dir_rva as int;
    let ghost size: int = dir_size as int;
    let mut consumed: usize = 0;
    while consumed < dir_size
        invariant
            consumed <= dir_size,
            destination@.len() == orig.len(),
            spec_apply_blocks(orig, rva, size, load_delta, 0) == spec_apply_blocks(
                destination@,
                rva,
                size,
                load_delta,
                consumed as int,
            ),
        decreases dir_size - consumed,
    {
        let dlen = destination.len();
        let start = match dir_rva.checked_add(consumed) {
            Some(s) => s,
            None => {
                return Err(RelocationError::OutOfBounds);
            },
        };
        if start > dlen || dlen - start < 8 {
            return Err(RelocationError::OutOfBounds);
        }
        let page_rva = read_le_u32(destination.as_slice(), start);
        let block_size = read_le_u32(destination.as_slice(), start + 4);
        if block_size == 0 {
            return Ok(());
        }
        if block_size < 8 {
            return Err(RelocationError::OutOfBounds);
        }
        let bs = block_size as usize;
        if bs > dir_size - consumed {
            return Err(RelocationError::OutOfBounds);
        }
        if bs > dlen - start {
            return Err(RelocationError::OutOfBounds);
        }
        let n = (bs - 8) / 2;
        assert(2 * ((bs - 8) as int / 2) <= bs - 8) by {
            vstd::arithmetic::div_mod::lemma_fundamental_div_mod((bs - 8) as int, 2);
        };
        let ghost d0: Seq<u8> = destination@;
        let mut j: usize = 0;
        while j < n
            invariant
                j <= n,
                n == (bs - 8) as int / 2,
                8 <= bs,
                2 * (n as int) <= bs - 8,
                start + bs <= dlen,
                dlen == destination@.len(),
                destination@.len() == d0.len(),
                d0.len() == orig.len(),
                consumed < dir_size,
                consumed + bs <= dir_size,
                start as int == rva + consumed,
                page_rva == le32(d0, rva + consumed),
                block_size == le32(d0, rva + consumed + 4),
                block_size == bs,
                spec_apply_blocks(orig, rva, size, load_delta, 0) == spec_apply_blocks(
                    d0,
                    rva,
                    size,
                    load_delta,
                    consumed as int,
                ),
                spec_apply_entries(
                    d0,
                    rva + consumed + 8,
                    n as nat,
                    page_rva as int,
                    load_delta,
                ) == spec_apply_entries(
                    destination@,
                    start + 8 + 2 * (j as int),
                    (n - j) as nat,
                    page_rva as int,
                    load_delta,
                ),
            decreases n - j,
        {
            let eoff = start + 8 + 2 * j;
            let e = read_le_u16(destination.as_slice(), eoff);
            let ty = e / 0x1000;
            if ty == RELOC_TYPE_ABSOLUTE {
                j = j + 1;
            } else if ty == RELOC_TYPE_DIR64 {
                let offset_in_page = e % 0x1000;
                let target = match (page_rva as usize).checked_add(offset_in_page as usize) {
                    Some(t) => t,
                    None => {
                        return Err(RelocationError::OutOfBounds);
                    },
                };
                if target > dlen || dlen - target < 8 {
                    return Err(RelocationError::OutOfBounds);
                }
                let v = vec_read_le_u64(destination, target);
                let nv = v.wrapping_add_signed(load_delta);
                assert(nv == wrap_add64(v, load_delta));
                write_le_u64(destination, target, nv);
                j = j + 1;
            } else {
                return Err(RelocationError::UnsupportedType);
            }
        }
        proof {
            assert(spec_apply_entries(
                destination@,
                start + 8 + 2 * (n as int),
                0,
                page_rva as int,
                load_delta,
            ) == Ok::<Seq<u8>, RelocationError>(destination@));
        }
        consumed = consumed + bs;
    }
    Ok(())
}

} // verus!

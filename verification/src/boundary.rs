//! The guest/host memory boundary: every capability call that touches guest
//! memory goes through these range-checked accessors and nothing else.
//!
//! A guest hands `(pointer, length)` pairs into capability functions; the
//! guest must never be able to induce an out-of-bounds host access, and the
//! memory can be resized between calls, so every access re-validates its
//! range against the current view. An out-of-range access is a boundary
//! fault: the operation is refused wholesale — no partial read or write —
//! and the documented empty or zero result is returned instead.
use vstd::prelude::*;
use vstd::slice::{slice_subrange, slice_to_vec};

verus! {

/// True when the byte range `[ptr, ptr + len)` lies inside a guest memory
/// of `mem_len` bytes.
pub open spec fn range_in_bounds(mem_len: nat, ptr: u32, len: u32) -> bool {
    ptr + len <= mem_len
}

/// The boundary check itself: exactly [`range_in_bounds`], total and free
/// of overflow.
pub fn check_range(mem_len: usize, ptr: u32, len: u32) -> (ok: bool)
    ensures
        ok == range_in_bounds(mem_len as nat, ptr, len),
{
    (ptr as usize) <= mem_len && (len as usize) <= mem_len - (ptr as usize)
}

/// Read exactly the bytes `[ptr, ptr + len)` of guest memory, or refuse an
/// out-of-range request without reading anything.
pub fn read_bytes(mem: &[u8], ptr: u32, len: u32) -> (r: Option<Vec<u8>>)
    ensures
        match r {
            Some(bytes) => range_in_bounds(mem@.len() as nat, ptr, len) && bytes@ == mem@.subrange(
                ptr as int,
                ptr as int + len as int,
            ),
            None => !range_in_bounds(mem@.len() as nat, ptr, len),
        },
{
    let mlen = mem.len();
    if check_range(mlen, ptr, len) {
        Some(slice_to_vec(slice_subrange(mem, ptr as usize, ptr as usize + len as usize)))
    } else {
        None
    }
}

/// Write `data` at `ptr` in guest memory: afterwards the range holds
/// exactly `data` and every other byte is untouched. A write reaching past
/// the current memory size is refused bytewise-untouched.
pub fn write_bytes(mem: &mut [u8], ptr: u32, data: &[u8]) -> (ok: bool)
    ensures
        final(mem)@.len() == old(mem)@.len(),
        ok == (ptr + data@.len() <= old(mem)@.len()),
        ok ==> forall|i: int|
            0 <= i < old(mem)@.len() ==> final(mem)@[i] == (if ptr <= i < ptr + data@.len() {
                data@[i - ptr]
            } else {
                old(mem)@[i]
            }),
        !ok ==> final(mem)@ == old(mem)@,
{
    let mlen = mem.len();
    let dlen = data.len();
    if (ptr as usize) > mlen || dlen > mlen - (ptr as usize) {
        return false;
    }
    let base = ptr as usize;
    for k in 0..dlen
        invariant
            mem@.len() == old(mem)@.len(),
            mlen == mem@.len(),
            base + dlen <= mem@.len(),
            base == ptr as int,
            dlen == data@.len(),
            forall|i: int|
                0 <= i < mem@.len() ==> mem@[i] == (if base <= i < base + k {
                    data@[i - base]
                } else {
                    old(mem)@[i]
                }),
    {
        mem[base + k] = data[k];
    }
    true
}

/// The byte that a fill with `value` stores: the guest passes a 32-bit
/// value, of which only the low byte is used.
pub open spec fn fill_byte(value: u32) -> u8 {
    value as u8
}

/// Fill the range `[ptr, ptr + len)` of guest memory with the low byte of
/// `value`, touching nothing else; an out-of-range fill is refused whole.
pub fn mem_fill(mem: &mut [u8], ptr: u32, len: u32, value: u32) -> (ok: bool)
    ensures
        final(mem)@.len() == old(mem)@.len(),
        ok == range_in_bounds(old(mem)@.len() as nat, ptr, len),
        ok ==> forall|i: int|
            0 <= i < old(mem)@.len() ==> final(mem)@[i] == (if ptr <= i < ptr + len {
                fill_byte(value)
            } else {
                old(mem)@[i]
            }),
        !ok ==> final(mem)@ == old(mem)@,
{
    let mlen = mem.len();
    if !check_range(mlen, ptr, len) {
        return false;
    }
    let base = ptr as usize;
    let count = len as usize;
    let b = #[verifier::truncate] (value as u8);
    for k in 0..count
        invariant
            mem@.len() == old(mem)@.len(),
            mlen == mem@.len(),
            base + count <= mem@.len(),
            base == ptr as int,
            count == len as int,
            b == fill_byte(value),
            forall|i: int|
                0 <= i < mem@.len() ==> mem@[i] == (if base <= i < base + k {
                    fill_byte(value)
                } else {
                    old(mem)@[i]
                }),
    {
        mem[base + k] = b;
    }
    true
}

/// Copy `len` bytes from `[src, src + len)` to `[dst, dst + len)` within
/// guest memory. Overlap is safe: the source range is captured before any
/// byte of the destination changes. Either range out of bounds refuses the
/// whole copy.
pub fn mem_copy(mem: &mut [u8], dst: u32, src: u32, len: u32) -> (ok: bool)
    ensures
        final(mem)@.len() == old(mem)@.len(),
        ok == (range_in_bounds(old(mem)@.len() as nat, dst, len) && range_in_bounds(
            old(mem)@.len() as nat,
            src,
            len,
        )),
        ok ==> forall|i: int|
            0 <= i < old(mem)@.len() ==> final(mem)@[i] == (if dst <= i < dst + len {
                old(mem)@[src + (i - dst)]
            } else {
                old(mem)@[i]
            }),
        !ok ==> final(mem)@ == old(mem)@,
{
    let mlen = mem.len();
    if !check_range(mlen, dst, len) || !check_range(mlen, src, len) {
        return false;
    }
    let src_base = src as usize;
    let dst_base = dst as usize;
    let count = len as usize;
    let mut tmp: Vec<u8> = Vec::new();
    for k in 0..count
        invariant
            mem@ == old(mem)@,
            mlen == mem@.len(),
            src_base + count <= mem@.len(),
            src_base == src as int,
            tmp@ == mem@.subrange(src_base as int, src_base + k),
    {
        tmp.push(mem[src_base + k]);
        proof {
            assert(tmp@ =~= mem@.subrange(src_base as int, src_base + k + 1));
        }
    }
    for k in 0..count
        invariant
            mem@.len() == old(mem)@.len(),
            mlen == mem@.len(),
            dst_base + count <= mem@.len(),
            dst_base == dst as int,
            src_base == src as int,
            count == len as int,
            tmp@.len() == count,
            forall|j: int| 0 <= j < count ==> tmp@[j] == old(mem)@[src_base + j],
            forall|i: int|
                0 <= i < mem@.len() ==> mem@[i] == (if dst_base <= i < dst_base + k {
                    old(mem)@[src_base + (i - dst_base)]
                } else {
                    old(mem)@[i]
                }),
    {
        mem[dst_base + k] = tmp[k];
    }
    true
}

/// The byte a surface clear stores at offset `k` of the cleared range: the
/// 32-bit color is laid down little-endian, cycling every four bytes.
pub open spec fn clear_byte(color: u32, k: int) -> u8 {
    (color >> (((k % 4) * 8) as u32)) as u8
}

/// Clear the surface bytes `[ptr, ptr + size)` of guest memory with the
/// given packed color, touching nothing else; an out-of-range clear is
/// refused whole.
pub fn clear_surface(mem: &mut [u8], ptr: u32, size: u32, color: u32) -> (ok: bool)
    ensures
        final(mem)@.len() == old(mem)@.len(),
        ok == range_in_bounds(old(mem)@.len() as nat, ptr, size),
        ok ==> forall|i: int|
            0 <= i < old(mem)@.len() ==> final(mem)@[i] == (if ptr <= i < ptr + size {
                clear_byte(color, i - ptr)
            } else {
                old(mem)@[i]
            }),
        !ok ==> final(mem)@ == old(mem)@,
{
    let mlen = mem.len();
    if !check_range(mlen, ptr, size) {
        return false;
    }
    let base = ptr as usize;
    let count = size as usize;
    for k in 0..count
        invariant
            mem@.len() == old(mem)@.len(),
            mlen == mem@.len(),
            base + count <= mem@.len(),
            base == ptr as int,
            count == size as int,
            forall|i: int|
                0 <= i < mem@.len() ==> mem@[i] == (if base <= i < base + k {
                    clear_byte(color, i - base)
                } else {
                    old(mem)@[i]
                }),
    {
        let rem = k % 4;
        let shift = (rem * 8) as u32;
        let b = #[verifier::truncate] ((color >> shift) as u8);
        proof {
            assert(rem == (k as int) % 4);
            assert(shift == (((k as int % 4) * 8) as u32));
            assert(b == clear_byte(color, k as int));
        }
        mem[base + k] = b;
    }
    true
}

/// State the host keeps for the guest instance across capability calls.
#[derive(Debug)]
pub struct WASMHostState {
    /// Whether the guest has grabbed the mouse cursor.
    pub cursor_grabbed: bool,
}

impl WASMHostState {
    /// The state a fresh guest instance starts from.
    pub fn new() -> (s: WASMHostState)
        ensures
            !s.cursor_grabbed,
    {
        WASMHostState { cursor_grabbed: false }
    }
}

} // verus!

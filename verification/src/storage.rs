//! Persistent byte storage exposed to the guest: a fixed-size buffer read
//! and written through the same bounds-checked boundary as every other
//! capability. Loading the buffer from disk and writing it back are I/O and
//! live in the host shell; this module holds the storage logic itself.
use vstd::prelude::*;
use vstd::slice::slice_subrange;

use crate::boundary::write_bytes;

verus! {

/// The fixed size of guest storage, in bytes.
pub const STORAGE_SIZE: usize = 8 * 1024 * 1024;

/// How many storage bytes an access at `offset` of length `len` touches:
/// clamped to what lies inside the storage, none at all past its end.
pub open spec fn storage_span(offset: int, len: int) -> int {
    if offset >= STORAGE_SIZE {
        0
    } else if len <= STORAGE_SIZE - offset {
        len
    } else {
        STORAGE_SIZE - offset
    }
}

/// The guest's persistent byte storage, with a dirty flag for the host
/// shell's write-back.
#[derive(Debug)]
pub struct Storage {
    pub data: Vec<u8>,
    pub dirty: bool,
}

impl Storage {
    /// The buffer always spans exactly [`STORAGE_SIZE`] bytes.
    pub open spec fn wf(self) -> bool {
        self.data@.len() == STORAGE_SIZE
    }

    /// A zeroed storage, not yet dirty. The host shell fills it from disk
    /// with [`Storage::load`] where a saved image exists.
    pub fn new() -> (s: Storage)
        ensures
            s.wf(),
            !s.dirty,
            forall|i: int| 0 <= i < STORAGE_SIZE ==> s.data@[i] == 0u8,
    {
        Storage { data: vec![0u8; STORAGE_SIZE], dirty: false }
    }

    /// Replace the whole buffer with a saved image of the right size.
    pub fn load(&mut self, data: Vec<u8>)
        requires
            data@.len() == STORAGE_SIZE,
        ensures
            final(self).wf(),
            final(self).data@ == data@,
            final(self).dirty == old(self).dirty,
    {
        self.data = data;
    }

    /// Copy up to `len` storage bytes starting at `offset` into guest
    /// memory at `wasm_ptr`, clamped to the end of storage; returns how many
    /// bytes were copied. A read starting past the end of storage, or one
    /// whose destination range leaves guest memory, copies nothing and
    /// returns zero.
    pub fn read(&self, mem_slice: &mut [u8], offset: usize, wasm_ptr: u32, len: usize) -> (n: u32)
        requires
            self.wf(),
        ensures
            final(mem_slice)@.len() == old(mem_slice)@.len(),
            ({
                let span = storage_span(offset as int, len as int);
                if offset < STORAGE_SIZE && wasm_ptr + span <= old(mem_slice)@.len() {
                    &&& n == span
                    &&& forall|i: int|
                        0 <= i < old(mem_slice)@.len() ==> final(mem_slice)@[i] == (if wasm_ptr
                            <= i < wasm_ptr + span {
                            self.data@[offset + (i - wasm_ptr)]
                        } else {
                            old(mem_slice)@[i]
                        })
                } else {
                    n == 0 && final(mem_slice)@ == old(mem_slice)@
                }
            }),
    {
        if offset >= STORAGE_SIZE {
            return 0;
        }
        let to_read: usize = if len <= STORAGE_SIZE - offset {
            len
        } else {
            STORAGE_SIZE - offset
        };
        let chunk = slice_subrange(self.data.as_slice(), offset, offset + to_read);
        if write_bytes(mem_slice, wasm_ptr, chunk) {
            to_read as u32
        } else {
            0
        }
    }

    /// Copy up to `len` bytes from guest memory at `wasm_ptr` into storage
    /// at `offset`, clamped to the end of storage, marking the storage
    /// dirty; returns how many bytes were copied. A write starting past the
    /// end of storage, or one whose source range leaves guest memory,
    /// copies nothing, marks nothing and returns zero.
    pub fn write(&mut self, mem_slice: &[u8], offset: usize, wasm_ptr: u32, len: usize) -> (n: u32)
        requires
            old(self).wf(),
        ensures
            final(self).wf(),
            ({
                let span = storage_span(offset as int, len as int);
                if offset < STORAGE_SIZE && wasm_ptr + span <= mem_slice@.len() {
                    &&& n == span
                    &&& final(self).dirty
                    &&& forall|i: int|
                        0 <= i < STORAGE_SIZE ==> final(self).data@[i] == (if offset <= i < offset
                            + span {
                            mem_slice@[wasm_ptr + (i - offset)]
                        } else {
                            old(self).data@[i]
                        })
                } else {
                    n == 0 && *final(self) == *old(self)
                }
            }),
    {
        if offset >= STORAGE_SIZE {
            return 0;
        }
        let to_write: usize = if len <= STORAGE_SIZE - offset {
            len
        } else {
            STORAGE_SIZE - offset
        };
        let mlen = mem_slice.len();
        if (wasm_ptr as usize) > mlen || to_write > mlen - (wasm_ptr as usize) {
            return 0;
        }
        let src = slice_subrange(mem_slice, wasm_ptr as usize, wasm_ptr as usize + to_write);
        let base = offset;
        for k in 0..to_write
            invariant
                self.data@.len() == STORAGE_SIZE,
                base + to_write <= STORAGE_SIZE,
                src@.len() == to_write,
                self.dirty == old(self).dirty,
                forall|j: int| 0 <= j < to_write ==> src@[j] == mem_slice@[wasm_ptr + j],
                forall|i: int|
                    0 <= i < STORAGE_SIZE ==> self.data@[i] == (if base <= i < base + k {
                        mem_slice@[wasm_ptr + (i - base)]
                    } else {
                        old(self).data@[i]
                    }),
        {
            let b = src[k];
            let m = vstd::std_specs::vec::vec_index_mut(&mut self.data, base + k);
            *m = b;
        }
        self.dirty = true;
        to_write as u32
    }

    /// Zero the whole buffer and mark it dirty.
    pub fn clear(&mut self)
        requires
            old(self).wf(),
        ensures
            final(self).wf(),
            final(self).dirty,
            forall|i: int| 0 <= i < STORAGE_SIZE ==> final(self).data@[i] == 0u8,
    {
        self.data = vec![0u8; STORAGE_SIZE];
        self.dirty = true;
    }

    /// The fixed storage size, as the guest queries it.
    pub fn size() -> (n: u32)
        ensures
            n == STORAGE_SIZE,
    {
        STORAGE_SIZE as u32
    }
}

} // verus!

//! The memory bridge: the single audited path through which syscall
//! arguments and results cross the guest memory boundary. Every
//! (offset, length) window a guest supplies is checked against the
//! guest's memory extent before a byte is read or written.

use vstd::prelude::*;

verus! {

/// The guest's addressable linear memory, as handed to the kernel by the
/// sandbox engine. The kernel touches it only through the bounded
/// operations below.
pub struct GuestMemory {
    pub bytes: Vec<u8>,
}

/// True when the window `[off, off + len)` lies inside a memory of
/// `mem_len` bytes.
pub open spec fn window_ok(mem_len: nat, off: u32, len: u32) -> bool {
    off + len <= mem_len
}

impl GuestMemory {
    /// True when the window lies inside this memory.
    pub open spec fn contains_window(&self, off: u32, len: u32) -> bool {
        window_ok(self.bytes@.len(), off, len)
    }

    /// Bounds check for a guest-supplied window; never touches the bytes.
    pub fn check_bounds(&self, off: u32, len: u32) -> (r: bool)
        ensures
            r <==> self.contains_window(off, len),
    {
        (off as u64) + (len as u64) <= self.bytes.len() as u64
    }

    /// Copies the checked window out of guest memory.
    pub fn read_range(&self, off: u32, len: u32) -> (r: Vec<u8>)
        requires
            self.contains_window(off, len),
        ensures
            r@ == self.bytes@.subrange(off as int, off as int + len as int),
    {
        let total: usize = self.bytes.len();
        let mut out: Vec<u8> = Vec::new();
        let mut i: usize = 0;
        while i < len as usize
            invariant
                i <= len,
                off + len <= total,
                self.bytes@.len() == total,
                out@ == self.bytes@.subrange(off as int, off as int + i as int),
            decreases len as int - i as int,
        {
            out.push(self.bytes[off as usize + i]);
            assert(out@ =~= self.bytes@.subrange(off as int, off as int + (i + 1)));
            i = i + 1;
        }
        assert(out@ =~= self.bytes@.subrange(off as int, off as int + len as int));
        out
    }

    /// Writes `data` into the checked window starting at `off`; all bytes
    /// outside the window keep their old values.
    pub fn write_range(&mut self, off: u32, data: &Vec<u8>)
        requires
            off + data@.len() <= old(self).bytes@.len(),
            data@.len() <= u32::MAX,
        ensures
            final(self).bytes@.len() == old(self).bytes@.len(),
            final(self).bytes@ == old(self).bytes@.take(off as int) + data@ + old(
                self,
            ).bytes@.skip(off as int + data@.len() as int),
    {
        let total: usize = self.bytes.len();
        let mut i: usize = 0;
        while i < data.len()
            invariant
                i <= data@.len(),
                data@.len() <= u32::MAX,
                off + data@.len() <= total,
                self.bytes@.len() == total,
                self.bytes@.len() == old(self).bytes@.len(),
                forall|j: int|
                    0 <= j < self.bytes@.len() && !(off <= j < off + i) ==> self.bytes@[j] == old(
                        self,
                    ).bytes@[j],
                forall|j: int| 0 <= j < i ==> self.bytes@[off as int + j] == data@[j],
            decreases data@.len() - i as int,
        {
            let idx: usize = off as usize + i;
            self.bytes.set(idx, data[i]);
            i = i + 1;
        }
        assert(self.bytes@ =~= old(self).bytes@.take(off as int) + data@ + old(self).bytes@.skip(
            off as int + data@.len() as int,
        ));
    }
}

} // verus!

//! The host's side of a plugin's state streams and input-event list.
//!
//! Saving, the plugin writes its state in chunks and the host appends
//! them; loading, the host hands the saved bytes back in chunks of at most
//! the size the plugin asks for, from a cursor, until they run out.
use vstd::prelude::*;

verus! {

/// The bytes of one save and one load.
pub struct StateStreams {
    save_buf: Vec<u8>,
    load_buf: Vec<u8>,
    cursor: usize,
}

impl StateStreams {
    pub closed spec fn saved(&self) -> Seq<u8> {
        self.save_buf@
    }

    pub closed spec fn to_load(&self) -> Seq<u8> {
        self.load_buf@
    }

    pub closed spec fn cursor(&self) -> nat {
        self.cursor as nat
    }

    /// The cursor stays within the bytes being loaded.
    pub open spec fn wf(&self) -> bool {
        self.cursor() <= self.to_load().len()
    }

    pub fn new() -> (r: StateStreams)
        ensures
            r.wf(),
            r.saved() == Seq::<u8>::empty(),
            r.to_load() == Seq::<u8>::empty(),
            r.cursor() == 0,
    {
        StateStreams { save_buf: Vec::new(), load_buf: Vec::new(), cursor: 0 }
    }

    /// Starts a save: nothing written yet.
    pub fn begin_save(&mut self)
        requires
            old(self).wf(),
        ensures
            final(self).wf(),
            final(self).saved() == Seq::<u8>::empty(),
            final(self).to_load() == old(self).to_load(),
            final(self).cursor() == old(self).cursor(),
    {
        self.save_buf.clear();
    }

    /// The plugin writes a chunk: it is appended whole, and its length is
    /// reported back.
    pub fn write(&mut self, chunk: &[u8]) -> (r: i64)
        requires
            old(self).wf(),
            chunk@.len() <= i64::MAX,
        ensures
            final(self).wf(),
            final(self).saved() == old(self).saved() + chunk@,
            final(self).to_load() == old(self).to_load(),
            final(self).cursor() == old(self).cursor(),
            r == chunk@.len(),
    {
        self.save_buf.extend_from_slice(chunk);
        chunk.len() as i64
    }

    /// What the save wrote.
    pub fn saved_bytes(&self) -> (r: &Vec<u8>)
        ensures
            r@ == self.saved(),
    {
        &self.save_buf
    }

    /// Starts a load of `bytes` from their start.
    pub fn begin_load(&mut self, bytes: &[u8])
        requires
            old(self).wf(),
        ensures
            final(self).wf(),
            final(self).to_load() == bytes@,
            final(self).cursor() == 0,
            final(self).saved() == old(self).saved(),
    {
        self.load_buf.clear();
        self.load_buf.extend_from_slice(bytes);
        self.cursor = 0;
    }

    /// The plugin reads up to `size` bytes: the next ones from the cursor,
    /// fewer at the end, none once all were read.
    pub fn read(&mut self, size: u64) -> (r: Vec<u8>)
        requires
            old(self).wf(),
        ensures
            final(self).wf(),
            final(self).to_load() == old(self).to_load(),
            final(self).saved() == old(self).saved(),
            ({
                let avail = old(self).to_load().len() - old(self).cursor();
                let n = if avail < size { avail } else { size as int };
                &&& r@ == old(self).to_load().subrange(old(self).cursor() as int, old(self).cursor() + n)
                &&& final(self).cursor() == old(self).cursor() + n
            }),
    {
        let avail = self.load_buf.len() - self.cursor;
        let n: usize = if (avail as u64) < size { avail } else { size as usize };
        let mut out: Vec<u8> = Vec::new();
        let mut i: usize = 0;
        assert(self.load_buf@.len() == self.load_buf.len());
        while i < n
            invariant
                i <= n,
                self.cursor + n <= self.load_buf@.len(),
                self.load_buf@.len() <= usize::MAX,
                self.cursor == old(self).cursor,
                self.load_buf == old(self).load_buf,
                self.save_buf == old(self).save_buf,
                out@ == self.load_buf@.subrange(self.cursor as int, self.cursor + i),
            decreases n - i,
        {
            out.push(self.load_buf[self.cursor + i]);
            assert(out@ =~= self.load_buf@.subrange(self.cursor as int, self.cursor + i + 1));
            i += 1;
        }
        self.cursor = self.cursor + n;
        out
    }
}

/// Reading back in chunks of any sizes gives what was loaded, in order:
/// after reads that took `k` bytes so far, the next read of `size` takes
/// the next `min(size, rest)` bytes.
pub proof fn law_reads_continue(loaded: Seq<u8>, taken: Seq<u8>, size: nat)
    requires
        taken.len() <= loaded.len(),
        taken == loaded.subrange(0, taken.len() as int),
    ensures
        ({
            let k = taken.len();
            let n = if loaded.len() - k < size { loaded.len() - k } else { size as int };
            taken + loaded.subrange(k as int, k + n) == loaded.subrange(0, k + n)
        }),
{
    let k = taken.len();
    let n = if loaded.len() - k < size { loaded.len() - k } else { size as int };
    assert(taken + loaded.subrange(k as int, k + n) =~= loaded.subrange(0, k + n));
}

/// The pointer of input event `index` the plugin asks for, or 0 past the
/// end of the list.
pub fn event_at(ptrs: &Vec<u32>, index: u32) -> (r: u32)
    ensures
        r == if (index as int) < ptrs@.len() { ptrs@[index as int] } else { 0 },
{
    if (index as usize) < ptrs.len() {
        ptrs[index as usize]
    } else {
        0
    }
}

} // verus!

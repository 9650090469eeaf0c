//! Reassembly of chunked sample transfers.
//!
//! A transfer message is one CBOR map `{"smp": <bytes>}`, recognised by its
//! 10-byte prefix `A1 63 's' 'm' 'p' 5A <u32 big-endian payload length>`.
//! The payload is a 32-byte little-endian header followed by planar PCM
//! (the left channel's frames, then the right channel's if stereo):
//!
//! | off | field             |                                        |
//! |-----|-------------------|----------------------------------------|
//! | 0   | magic u32         | 0x504C5350 "PLSP"                      |
//! | 4   | version u32       | 1                                      |
//! | 8   | slot u32          | 0..64                                  |
//! | 12  | sample_rate u32   |                                        |
//! | 16  | channels u32      | 1 or 2                                 |
//! | 20  | total_frames u32  | 0 = clear the slot                     |
//! | 24  | chunk_frame_start | u32                                    |
//! | 28  | chunk_frames u32  |                                        |
//!
//! A chunk starting at frame 0 (re)starts its slot; the transfer completes
//! when `start + frames == total_frames`. Samples are 32-bit floats; the
//! assembler moves them as their bit patterns and never interprets them.
use vstd::prelude::*;
use crate::wire::{le_value, be_value, le_bytes, be_bytes, read_le, read_be, lemma_le_value_bound, lemma_be_value_bound,
    lemma_pow256_values, lemma_le_roundtrip, lemma_be_roundtrip, lemma_le_bytes_len, lemma_be_bytes_len};

verus! {

/// "PLSP", little-endian.
pub const PLSP_MAGIC: u32 = 0x504C_5350;
pub const PLSP_VERSION: u32 = 1;
/// The most frames per channel a transfer may declare (2^26).
pub const MAX_FRAMES: u32 = 0x400_0000;
/// The number of slots.
pub const MAX_SLOTS: usize = 64;

/// A received sample; each frame value is the bit pattern of a 32-bit float.
#[derive(Debug)]
pub struct SampleBits {
    pub sample_rate: u32,
    pub channels: u32,
    pub frame_count: usize,
    pub left: Vec<u32>,
    /// Empty for a mono sample.
    pub right: Vec<u32>,
}

/// What feeding one message to the assembler gave.
#[derive(Debug)]
pub enum AssembleResult {
    /// Not a transfer message: hand it to the next parser.
    NotMine,
    /// Chunk accepted; the transfer is still in flight.
    Progress { slot: u32, received_frames: u32, total_frames: u32 },
    /// The slot's sample is complete.
    Complete { slot: u32, sample: SampleBits },
    /// The sender cleared this slot (`total_frames == 0`).
    Cleared { slot: u32 },
    /// A malformed or out-of-contract message.
    Error,
}

/// A transfer in flight, as a value.
pub struct FlightView {
    pub sample_rate: u32,
    pub channels: u32,
    pub total_frames: u32,
    pub received_frames: u32,
    pub left: Seq<u32>,
    pub right: Seq<u32>,
}

/// An assemble result, as a value.
pub enum ResultView {
    NotMine,
    Progress { slot: u32, received_frames: u32, total_frames: u32 },
    Complete { slot: u32, sample_rate: u32, channels: u32, frame_count: nat, left: Seq<u32>, right: Seq<u32> },
    Cleared { slot: u32 },
    Error,
}

impl AssembleResult {
    pub open spec fn view(&self) -> ResultView {
        match self {
            AssembleResult::NotMine => ResultView::NotMine,
            AssembleResult::Progress { slot, received_frames, total_frames } => ResultView::Progress {
                slot: *slot,
                received_frames: *received_frames,
                total_frames: *total_frames,
            },
            AssembleResult::Complete { slot, sample } => ResultView::Complete {
                slot: *slot,
                sample_rate: sample.sample_rate,
                channels: sample.channels,
                frame_count: sample.frame_count as nat,
                left: sample.left@,
                right: sample.right@,
            },
            AssembleResult::Cleared { slot } => ResultView::Cleared { slot: *slot },
            AssembleResult::Error => ResultView::Error,
        }
    }
}

// ---------------------------------------------------------------------------
// The message format
// ---------------------------------------------------------------------------

/// `A1 63 's' 'm' 'p' 5A`: a one-entry map whose key is "smp" and whose
/// value is a byte string with a 4-byte length.
pub open spec fn smp_prefix() -> Seq<u8> {
    seq![0xa1u8, 0x63, 0x73, 0x6d, 0x70, 0x5a]
}

/// Header field at payload offset `off`.
pub open spec fn field(b: Seq<u8>, off: int) -> nat {
    le_value(b.subrange(10 + off, 10 + off + 4))
}

/// The payload length the message declares.
pub open spec fn declared(b: Seq<u8>) -> nat {
    be_value(b.subrange(6, 10))
}

/// `n` frames starting at PCM byte `off` (payload offset 32 + off).
pub open spec fn pcm_frames(b: Seq<u8>, off: int, n: nat) -> Seq<u32> {
    Seq::new(n, |i: int| le_value(b.subrange(42 + off + 4 * i, 42 + off + 4 * i + 4)) as u32)
}

/// `chunk` written over `buf` from frame `start`.
pub open spec fn write_frames(buf: Seq<u32>, start: int, chunk: Seq<u32>) -> Seq<u32> {
    Seq::new(buf.len(), |j: int| if start <= j < start + chunk.len() { chunk[j - start] } else { buf[j] })
}

/// A freshly started transfer.
pub open spec fn fresh(rate: u32, ch: u32, total: u32) -> FlightView {
    FlightView {
        sample_rate: rate,
        channels: ch,
        total_frames: total,
        received_frames: 0,
        left: Seq::new(total as nat, |i: int| 0u32),
        right: if ch == 2 { Seq::new(total as nat, |i: int| 0u32) } else { Seq::empty() },
    }
}

/// What a message is, before any slot is touched: `Err` holds the result
/// for a message that is not ours or is malformed in its envelope or
/// header; `Ok` holds (declared length, slot) for one that reached the slot.
pub open spec fn envelope(b: Seq<u8>) -> Result<(nat, nat), ResultView> {
    if b.len() < 42 {
        if b.len() >= 6 && b.subrange(0, 6) == smp_prefix() {
            Err(ResultView::Error)
        } else {
            Err(ResultView::NotMine)
        }
    } else if b.subrange(0, 6) != smp_prefix() {
        Err(ResultView::NotMine)
    } else if b.len() - 10 < declared(b) || declared(b) < 32 {
        Err(ResultView::Error)
    } else if field(b, 0) != PLSP_MAGIC || field(b, 4) != PLSP_VERSION {
        Err(ResultView::Error)
    } else if field(b, 8) >= MAX_SLOTS {
        Err(ResultView::Error)
    } else {
        Ok((declared(b), field(b, 8)))
    }
}

/// The chunk shape is out of contract: bad channel count, zero rate, too
/// many frames, an empty chunk, a chunk past the end, or a payload whose
/// size does not match.
pub open spec fn bad_chunk(b: Seq<u8>) -> bool {
    let ch = field(b, 16);
    let total = field(b, 20);
    let start = field(b, 24);
    let frames = field(b, 28);
    ||| !(1 <= ch <= 2)
    ||| field(b, 12) == 0
    ||| total > MAX_FRAMES
    ||| frames == 0
    ||| start + frames > total
    ||| declared(b) != 32 + frames * ch * 4
}

/// The state after a message, and its result. The state holds one entry
/// per slot: the transfer in flight there, if any.
pub open spec fn spec_push(st: Seq<Option<FlightView>>, b: Seq<u8>) -> (Seq<Option<FlightView>>, ResultView) {
    match envelope(b) {
        Err(r) => (st, r),
        Ok((_, slot)) => {
            let rate = field(b, 12) as u32;
            let ch = field(b, 16) as u32;
            let total = field(b, 20) as u32;
            let start = field(b, 24) as u32;
            let frames = field(b, 28) as u32;
            let s = slot as int;
            if total == 0 {
                (st.update(s, None), ResultView::Cleared { slot: slot as u32 })
            } else if bad_chunk(b) {
                (st.update(s, None), ResultView::Error)
            } else {
                let st1 = if start == 0 { st.update(s, Some(fresh(rate, ch, total))) } else { st };
                match st1[s] {
                    None => (st1, ResultView::Error),
                    Some(fl) => if fl.sample_rate != rate || fl.channels != ch || fl.total_frames != total
                        || fl.received_frames != start {
                        (st1.update(s, None), ResultView::Error)
                    } else {
                        let left = write_frames(fl.left, start as int, pcm_frames(b, 0, frames as nat));
                        let right = if ch == 2 {
                            write_frames(fl.right, start as int, pcm_frames(b, 4 * frames, frames as nat))
                        } else {
                            fl.right
                        };
                        let got = (start + frames) as u32;
                        if got == total {
                            (st1.update(s, None), ResultView::Complete {
                                slot: slot as u32,
                                sample_rate: rate,
                                channels: ch,
                                frame_count: total as nat,
                                left,
                                right,
                            })
                        } else {
                            (st1.update(s, Some(FlightView { received_frames: got, left, right, ..fl })),
                                ResultView::Progress { slot: slot as u32, received_frames: got, total_frames: total })
                        }
                    },
                }
            }
        },
    }
}

/// A transfer in flight that the state can hold.
pub open spec fn flight_ok(fl: FlightView) -> bool {
    &&& 1 <= fl.channels <= 2
    &&& fl.sample_rate != 0
    &&& 0 < fl.total_frames <= MAX_FRAMES
    &&& fl.received_frames < fl.total_frames
    &&& fl.left.len() == fl.total_frames
    &&& fl.right.len() == (if fl.channels == 2 { fl.total_frames as nat } else { 0 })
}

pub open spec fn state_ok(st: Seq<Option<FlightView>>) -> bool {
    &&& st.len() == MAX_SLOTS
    &&& forall|i: int| 0 <= i < st.len() ==> (#[trigger] st[i] matches Some(fl) ==> flight_ok(fl))
}

// ---------------------------------------------------------------------------
// The assembler
// ---------------------------------------------------------------------------

struct InFlight {
    sample_rate: u32,
    channels: u32,
    total_frames: u32,
    received_frames: u32,
    left: Vec<u32>,
    right: Vec<u32>,
}

impl InFlight {
    spec fn view(&self) -> FlightView {
        FlightView {
            sample_rate: self.sample_rate,
            channels: self.channels,
            total_frames: self.total_frames,
            received_frames: self.received_frames,
            left: self.left@,
            right: self.right@,
        }
    }
}

spec fn slots_view(v: Seq<Option<InFlight>>) -> Seq<Option<FlightView>> {
    v.map_values(|o: Option<InFlight>| match o {
        Some(f) => Some(f.view()),
        None => None,
    })
}

/// Reassembles per-slot chunked sample transfers.
pub struct SampleAssembler {
    slots: Vec<Option<InFlight>>,
}

impl SampleAssembler {
    /// The transfer in flight in each slot.
    pub closed spec fn state(&self) -> Seq<Option<FlightView>> {
        slots_view(self.slots@)
    }

    /// The state holds one entry per slot, and every transfer in flight
    /// is one the state can hold.
    pub open spec fn wf(&self) -> bool {
        state_ok(self.state())
    }

    /// An assembler with no transfer in flight.
    pub fn new() -> (r: SampleAssembler)
        ensures
            r.wf(),
            r.state().len() == MAX_SLOTS,
            forall|i: int| 0 <= i < MAX_SLOTS ==> #[trigger] r.state()[i] is None,
    {
        let mut slots: Vec<Option<InFlight>> = Vec::new();
        while slots.len() < MAX_SLOTS
            invariant
                slots@.len() <= MAX_SLOTS,
                forall|i: int| 0 <= i < slots@.len() ==> #[trigger] slots@[i] is None,
            decreases MAX_SLOTS - slots@.len(),
        {
            slots.push(None);
        }
        let r = SampleAssembler { slots };
        assert(r.state().len() == MAX_SLOTS);
        r
    }

    /// Takes the slot's transfer out, leaving the slot empty.
    fn take(&mut self, slot: usize) -> (r: Option<InFlight>)
        requires
            old(self).wf(),
            slot < MAX_SLOTS,
        ensures
            final(self).wf(),
            final(self).state() == old(self).state().update(slot as int, None),
            match r {
                Some(f) => old(self).state()[slot as int] == Some(f.view()),
                None => old(self).state()[slot as int] is None,
            },
    {
        self.slots.push(None);
        let r = self.slots.swap_remove(slot);
        proof {
            assert(self.state() =~= old(self).state().update(slot as int, None));
        }
        r
    }

    fn put(&mut self, slot: usize, fl: InFlight)
        requires
            old(self).wf(),
            slot < MAX_SLOTS,
            flight_ok(fl.view()),
        ensures
            final(self).wf(),
            final(self).state() == old(self).state().update(slot as int, Some(fl.view())),
    {
        let ghost v = fl.view();
        self.slots.set(slot, Some(fl));
        proof {
            assert(self.state() =~= old(self).state().update(slot as int, Some(v)));
        }
    }
}

fn le_u32(b: &[u8], at: usize) -> (r: u32)
    requires
        at + 4 <= b@.len(),
    ensures
        r as nat == le_value(b@.subrange(at as int, at + 4)),
{
    proof {
        lemma_le_value_bound(b@.subrange(at as int, at + 4));
        lemma_pow256_values();
    }
    read_le(b, at, 4) as u32
}

/// Writes `n` frames of PCM from byte `off` (after the header) into `buf`
/// from frame `start`.
fn fill(buf: &mut Vec<u32>, b: &[u8], off: usize, start: usize, n: usize)
    requires
        start + n <= old(buf)@.len(),
        42 + off + 4 * n <= b@.len(),
    ensures
        final(buf)@ == write_frames(old(buf)@, start as int, pcm_frames(b@, off as int, n as nat)),
{
    let mut i: usize = 0;
    assert(b@.len() == b.len());
    assert(buf@.len() == buf.len());
    while i < n
        invariant
            i <= n,
            start + n <= old(buf)@.len(),
            42 + off + 4 * n <= b@.len(),
            b@.len() <= usize::MAX,
            old(buf)@.len() <= usize::MAX,
            buf@.len() == old(buf)@.len(),
            forall|j: int| 0 <= j < buf@.len() ==> #[trigger] buf@[j] == if start <= j < start + i {
                pcm_frames(b@, off as int, n as nat)[j - start]
            } else {
                old(buf)@[j]
            },
        decreases n - i,
    {
        let v = le_u32(b, 42 + off + 4 * i);
        buf.set(start + i, v);
        i += 1;
    }
    assert(buf@ =~= write_frames(old(buf)@, start as int, pcm_frames(b@, off as int, n as nat)));
}


fn has_smp_prefix(b: &[u8]) -> (r: bool)
    requires
        b@.len() >= 6,
    ensures
        r == (b@.subrange(0, 6) == smp_prefix()),
{
    let r = b[0] == 0xa1 && b[1] == 0x63 && b[2] == 0x73 && b[3] == 0x6d && b[4] == 0x70 && b[5] == 0x5a;
    proof {
        if r {
            assert(b@.subrange(0, 6) =~= smp_prefix());
        } else {
            if b@.subrange(0, 6) == smp_prefix() {
                assert(b@.subrange(0, 6)[0] == b@[0]);
                assert(b@.subrange(0, 6)[1] == b@[1]);
                assert(b@.subrange(0, 6)[2] == b@[2]);
                assert(b@.subrange(0, 6)[3] == b@[3]);
                assert(b@.subrange(0, 6)[4] == b@[4]);
                assert(b@.subrange(0, 6)[5] == b@[5]);
            }
        }
    }
    r
}

/// The envelope and header checks; see `envelope`.
fn check_envelope(b: &[u8]) -> (r: Result<(usize, usize), AssembleResult>)
    ensures
        match (r, envelope(b@)) {
            (Ok((d, s)), Ok((d2, s2))) => d == d2 && s == s2,
            (Err(a), Err(v)) => a.view() == v,
            _ => false,
        },
{
    if b.len() < 42 {
        if b.len() >= 6 && has_smp_prefix(b) {
            return Err(AssembleResult::Error);
        }
        return Err(AssembleResult::NotMine);
    }
    if !has_smp_prefix(b) {
        return Err(AssembleResult::NotMine);
    }
    proof {
        lemma_be_value_bound(b@.subrange(6, 10));
        lemma_pow256_values();
    }
    let decl = read_be(b, 6, 4) as usize;
    if b.len() - 10 < decl || decl < 32 {
        return Err(AssembleResult::Error);
    }
    if le_u32(b, 10) != PLSP_MAGIC || le_u32(b, 14) != PLSP_VERSION {
        return Err(AssembleResult::Error);
    }
    let slot = le_u32(b, 18);
    if slot as usize >= MAX_SLOTS {
        return Err(AssembleResult::Error);
    }
    Ok((decl, slot as usize))
}

impl SampleAssembler {
    /// Feeds one message; see `spec_push` for the state it leaves and the
    /// result it gives.
    pub fn push(&mut self, bytes: &[u8]) -> (r: AssembleResult)
        requires
            old(self).wf(),
        ensures
            final(self).wf(),
            (final(self).state(), r.view()) == spec_push(old(self).state(), bytes@),
    {
        let (decl, slot) = match check_envelope(bytes) {
            Err(r) => return r,
            Ok(x) => x,
        };
        let ghost st = self.state();
        let ghost b = bytes@;
        let rate = le_u32(bytes, 22);
        let ch = le_u32(bytes, 26);
        let total = le_u32(bytes, 30);
        let start = le_u32(bytes, 34);
        let frames = le_u32(bytes, 38);
        assert(rate == field(b, 12) && ch == field(b, 16) && total == field(b, 20));
        assert(start == field(b, 24) && frames == field(b, 28));
        if total == 0 {
            let _ = self.take(slot);
            return AssembleResult::Cleared { slot: slot as u32 };
        }
        if !(1 <= ch && ch <= 2) || rate == 0 || total > MAX_FRAMES || frames == 0
            || start as u64 + frames as u64 > total as u64 {
            let _ = self.take(slot);
            return AssembleResult::Error;
        }
        assert((frames as int) * (ch as int) * 4 <= 0x2000_0000) by (nonlinear_arith)
            requires
                frames <= 0x400_0000,
                ch <= 2,
        ;
        let expected = 32 + (frames as usize) * (ch as usize) * 4;
        if decl != expected {
            let _ = self.take(slot);
            return AssembleResult::Error;
        }
        assert(!bad_chunk(b));
        if start == 0 {
            let _ = self.take(slot);
            let left: Vec<u32> = vec![0u32; total as usize];
            let right: Vec<u32> = if ch == 2 { vec![0u32; total as usize] } else { Vec::new() };
            let fl = InFlight { sample_rate: rate, channels: ch, total_frames: total, received_frames: 0, left, right };
            assert(fl.view().left =~= fresh(rate, ch, total).left);
            assert(fl.view().right =~= fresh(rate, ch, total).right);
            self.put(slot, fl);
        }
        let ghost st1 = self.state();
        assert(st1 == (if start == 0 { st.update(slot as int, Some(fresh(rate, ch, total))) } else { st }));
        let mut fl = match self.take(slot) {
            None => {
                assert(self.state() =~= st1);
                return AssembleResult::Error;
            },
            Some(f) => f,
        };
        if fl.sample_rate != rate || fl.channels != ch || fl.total_frames != total || fl.received_frames != start {
            return AssembleResult::Error;
        }
        let ghost fl0 = fl.view();
        assert(b.len() >= 10 + decl);
        assert((frames as int) * (ch as int) * 4 >= 4 * frames && (ch == 2 ==> (frames as int) * (ch as int) * 4 == 8 * frames)) by (nonlinear_arith)
            requires
                1 <= ch <= 2,
        ;
        fill(&mut fl.left, bytes, 0, start as usize, frames as usize);
        if ch == 2 {
            fill(&mut fl.right, bytes, 4 * frames as usize, start as usize, frames as usize);
        }
        fl.received_frames = start + frames;
        if fl.received_frames == total {
            return AssembleResult::Complete {
                slot: slot as u32,
                sample: SampleBits {
                    sample_rate: rate,
                    channels: ch,
                    frame_count: total as usize,
                    left: fl.left,
                    right: fl.right,
                },
            };
        }
        let got = fl.received_frames;
        self.put(slot, fl);
        AssembleResult::Progress { slot: slot as u32, received_frames: got, total_frames: total }
    }
}


/// A message only ever changes the slot it names: every other slot's
/// transfer is left as it was.
pub proof fn law_push_touches_one_slot(st: Seq<Option<FlightView>>, b: Seq<u8>, i: int)
    requires
        state_ok(st),
        0 <= i < MAX_SLOTS,
        envelope(b) is Err || i != field(b, 8),
    ensures
        spec_push(st, b).0[i] == st[i],
{
}

/// A chunk that starts at frame 0 restarts its slot: what it gives, and
/// the state it leaves, do not depend on what the slot held before.
pub proof fn law_restart_ignores_slot(st: Seq<Option<FlightView>>, st2: Seq<Option<FlightView>>, b: Seq<u8>)
    requires
        state_ok(st),
        state_ok(st2),
        envelope(b) is Ok,
        field(b, 24) == 0,
        forall|i: int| 0 <= i < MAX_SLOTS && i != field(b, 8) ==> st[i] == st2[i],
    ensures
        spec_push(st, b).1 == spec_push(st2, b).1,
        spec_push(st, b).0 == spec_push(st2, b).0,
{
    let s = field(b, 8) as int;
    let rate = field(b, 12) as u32;
    let ch = field(b, 16) as u32;
    let total = field(b, 20) as u32;
    assert(st.update(s, None) =~= st2.update(s, None));
    assert(st.update(s, Some(fresh(rate, ch, total))) =~= st2.update(s, Some(fresh(rate, ch, total))));
    let st1 = st.update(s, Some(fresh(rate, ch, total)));
    let st21 = st2.update(s, Some(fresh(rate, ch, total)));
    assert(st1.update(s, None) =~= st21.update(s, None));
}

/// A clear message empties its slot and nothing else.
pub proof fn law_clear_empties_slot(st: Seq<Option<FlightView>>, b: Seq<u8>)
    requires
        state_ok(st),
        envelope(b) is Ok,
        field(b, 20) == 0,
    ensures
        spec_push(st, b).0 == st.update(field(b, 8) as int, None),
        spec_push(st, b).1 == (ResultView::Cleared { slot: field(b, 8) as u32 }),
{
}

proof fn lemma_fields_fit(b: Seq<u8>)
    requires
        b.len() >= 42,
    ensures
        field(b, 12) <= u32::MAX,
        field(b, 16) <= u32::MAX,
        field(b, 20) <= u32::MAX,
        field(b, 24) <= u32::MAX,
        field(b, 28) <= u32::MAX,
{
    lemma_pow256_values();
    lemma_le_value_bound(b.subrange(22, 26));
    lemma_le_value_bound(b.subrange(26, 30));
    lemma_le_value_bound(b.subrange(30, 34));
    lemma_le_value_bound(b.subrange(34, 38));
    lemma_le_value_bound(b.subrange(38, 42));
}

/// The state stays one the assembler can hold, whatever message comes.
pub proof fn law_push_keeps_state_ok(st: Seq<Option<FlightView>>, b: Seq<u8>)
    requires
        state_ok(st),
    ensures
        state_ok(spec_push(st, b).0),
{
    let r = spec_push(st, b).0;
    assert forall|i: int| 0 <= i < r.len() implies (#[trigger] r[i] matches Some(fl) ==> flight_ok(fl)) by {
        if envelope(b) is Ok && i == field(b, 8) {
            lemma_fields_fit(b);
            let rate = field(b, 12) as u32;
            let ch = field(b, 16) as u32;
            let total = field(b, 20) as u32;
            let start = field(b, 24) as u32;
            let frames = field(b, 28) as u32;
            if total != 0 && !bad_chunk(b) {
                let st1 = if start == 0 { st.update(i, Some(fresh(rate, ch, total))) } else { st };
                assert(st1[i] matches Some(fl) ==> flight_ok(fl));
                if st1[i] is Some {
                    let fl = st1[i]->Some_0;
                    let left = write_frames(fl.left, start as int, pcm_frames(b, 0, frames as nat));
                    let right = if ch == 2 {
                        write_frames(fl.right, start as int, pcm_frames(b, 4 * frames, frames as nat))
                    } else {
                        fl.right
                    };
                    assert(left.len() == fl.left.len());
                    assert(right.len() == fl.right.len());
                }
            }
        } else {
            law_push_touches_one_slot(st, b, i);
        }
    }
}


// ---------------------------------------------------------------------------
// The sender's side
// ---------------------------------------------------------------------------

/// Frames as little-endian 32-bit words.
pub open spec fn frames_bytes(s: Seq<u32>) -> Seq<u8>
    decreases s.len(),
{
    if s.len() == 0 {
        Seq::empty()
    } else {
        frames_bytes(s.drop_last()) + le_bytes(s.last() as nat, 4)
    }
}

/// The message a sender writes for one chunk: `left` (and `right` for a
/// stereo sample) are the chunk's frames.
pub open spec fn chunk_message(slot: u32, rate: u32, ch: u32, total: u32, start: u32, left: Seq<u32>, right: Seq<u32>) -> Seq<u8> {
    let pcm = frames_bytes(left) + frames_bytes(right);
    smp_prefix() + be_bytes(32 + pcm.len(), 4) + le_bytes(PLSP_MAGIC as nat, 4) + le_bytes(PLSP_VERSION as nat, 4)
        + le_bytes(slot as nat, 4) + le_bytes(rate as nat, 4) + le_bytes(ch as nat, 4) + le_bytes(total as nat, 4)
        + le_bytes(start as nat, 4) + le_bytes(left.len(), 4) + pcm
}

proof fn lemma_frames_bytes(s: Seq<u32>)
    ensures
        frames_bytes(s).len() == 4 * s.len(),
        forall|i: int| 0 <= i < s.len() ==> #[trigger] frames_bytes(s).subrange(4 * i, 4 * i + 4) == le_bytes(s[i] as nat, 4),
    decreases s.len(),
{
    if s.len() > 0 {
        let p = s.drop_last();
        lemma_frames_bytes(p);
        lemma_le_bytes_len(s.last() as nat, 4);
        let f = frames_bytes(s);
        assert forall|i: int| 0 <= i < s.len() implies #[trigger] f.subrange(4 * i, 4 * i + 4) == le_bytes(s[i] as nat, 4) by {
            if i < p.len() {
                assert(f.subrange(4 * i, 4 * i + 4) =~= frames_bytes(p).subrange(4 * i, 4 * i + 4));
            } else {
                assert(f.subrange(4 * i, 4 * i + 4) =~= le_bytes(s.last() as nat, 4));
            }
        }
    }
}

/// The shape of a chunk a sender may send.
pub open spec fn chunk_ok(slot: u32, rate: u32, ch: u32, total: u32, start: u32, left: Seq<u32>, right: Seq<u32>) -> bool {
    &&& slot < MAX_SLOTS
    &&& 1 <= ch <= 2
    &&& rate != 0
    &&& 0 < total <= MAX_FRAMES
    &&& left.len() > 0
    &&& start + left.len() <= total
    &&& right.len() == (if ch == 2 { left.len() } else { 0 })
}

proof fn lemma_chunk_fields(slot: u32, rate: u32, ch: u32, total: u32, start: u32, left: Seq<u32>, right: Seq<u32>)
    requires
        chunk_ok(slot, rate, ch, total, start, left, right),
    ensures
        ({
            let b = chunk_message(slot, rate, ch, total, start, left, right);
            &&& envelope(b) == Ok::<(nat, nat), ResultView>(((32 + 4 * ch * left.len()) as nat, slot as nat))
            &&& field(b, 12) == rate
            &&& field(b, 16) == ch
            &&& field(b, 20) == total
            &&& field(b, 24) == start
            &&& field(b, 28) == left.len()
            &&& !bad_chunk(b)
            &&& pcm_frames(b, 0, left.len()) == left
            &&& (ch == 2 ==> pcm_frames(b, 4 * left.len() as int, left.len()) == right)
        }),
{
    lemma_pow256_values();
    let n = left.len();
    let b = chunk_message(slot, rate, ch, total, start, left, right);
    lemma_frames_bytes(left);
    lemma_frames_bytes(right);
    let pcm = frames_bytes(left) + frames_bytes(right);
    assert(pcm.len() == 4 * ch * n) by (nonlinear_arith)
        requires
            pcm.len() == 4 * n + 4 * right.len(),
            right.len() == (if ch == 2 { n } else { 0 }),
            1 <= ch <= 2,
    ;
    assert(4 * ch * n <= 0x2000_0000) by (nonlinear_arith)
        requires
            n <= MAX_FRAMES,
            ch <= 2,
    ;
    lemma_be_bytes_len(32 + pcm.len(), 4);
    lemma_be_roundtrip(32 + pcm.len(), 4);
    let vals = seq![PLSP_MAGIC as nat, PLSP_VERSION as nat, slot as nat, rate as nat, ch as nat, total as nat, start as nat, n];
    lemma_le_bytes_len(PLSP_MAGIC as nat, 4);
    lemma_le_bytes_len(PLSP_VERSION as nat, 4);
    lemma_le_bytes_len(slot as nat, 4);
    lemma_le_bytes_len(rate as nat, 4);
    lemma_le_bytes_len(ch as nat, 4);
    lemma_le_bytes_len(total as nat, 4);
    lemma_le_bytes_len(start as nat, 4);
    lemma_le_bytes_len(n, 4);
    lemma_le_roundtrip(PLSP_MAGIC as nat, 4);
    lemma_le_roundtrip(PLSP_VERSION as nat, 4);
    lemma_le_roundtrip(slot as nat, 4);
    lemma_le_roundtrip(rate as nat, 4);
    lemma_le_roundtrip(ch as nat, 4);
    lemma_le_roundtrip(total as nat, 4);
    lemma_le_roundtrip(start as nat, 4);
    lemma_le_roundtrip(n, 4);
    assert(b.subrange(0, 6) =~= smp_prefix());
    assert(b.subrange(6, 10) =~= be_bytes(32 + pcm.len(), 4));
    assert(b.subrange(10, 14) =~= le_bytes(PLSP_MAGIC as nat, 4));
    assert(b.subrange(14, 18) =~= le_bytes(PLSP_VERSION as nat, 4));
    assert(b.subrange(18, 22) =~= le_bytes(slot as nat, 4));
    assert(b.subrange(22, 26) =~= le_bytes(rate as nat, 4));
    assert(b.subrange(26, 30) =~= le_bytes(ch as nat, 4));
    assert(b.subrange(30, 34) =~= le_bytes(total as nat, 4));
    assert(b.subrange(34, 38) =~= le_bytes(start as nat, 4));
    assert(b.subrange(38, 42) =~= le_bytes(n, 4));
    assert(b.len() == 42 + pcm.len());
    assert(pcm_frames(b, 0, n) =~= left) by {
        assert forall|i: int| 0 <= i < n implies pcm_frames(b, 0, n)[i] == left[i] by {
            assert(b.subrange(42 + 4 * i, 42 + 4 * i + 4) =~= frames_bytes(left).subrange(4 * i, 4 * i + 4));
            lemma_le_roundtrip(left[i] as nat, 4);
        }
    }
    if ch == 2 {
        assert(pcm_frames(b, 4 * n as int, n) =~= right) by {
            assert forall|i: int| 0 <= i < n implies pcm_frames(b, 4 * n as int, n)[i] == right[i] by {
                assert(b.subrange(42 + 4 * n + 4 * i, 42 + 4 * n + 4 * i + 4) =~= frames_bytes(right).subrange(4 * i, 4 * i + 4));
                lemma_le_roundtrip(right[i] as nat, 4);
            }
        }
    }
}

/// A chunk sent in order lands where it belongs: a chunk from frame 0
/// starts its slot afresh; a later chunk must continue the transfer in
/// flight in its slot. Its frames are written from its start frame, and
/// the transfer completes exactly when it reaches the last frame, handing
/// out the whole sample.
pub proof fn law_chunk_in_order(st: Seq<Option<FlightView>>, slot: u32, rate: u32, ch: u32, total: u32, start: u32,
    left: Seq<u32>, right: Seq<u32>)
    requires
        state_ok(st),
        chunk_ok(slot, rate, ch, total, start, left, right),
        start != 0 ==> (st[slot as int] matches Some(fl) && fl.sample_rate == rate && fl.channels == ch
            && fl.total_frames == total && fl.received_frames == start),
    ensures
        ({
            let base = if start == 0 { fresh(rate, ch, total) } else { st[slot as int]->Some_0 };
            let l = write_frames(base.left, start as int, left);
            let r = if ch == 2 { write_frames(base.right, start as int, right) } else { base.right };
            let got = (start + left.len()) as u32;
            spec_push(st, chunk_message(slot, rate, ch, total, start, left, right)) == if got == total {
                (st.update(slot as int, None), ResultView::Complete {
                    slot,
                    sample_rate: rate,
                    channels: ch,
                    frame_count: total as nat,
                    left: l,
                    right: r,
                })
            } else {
                (st.update(slot as int, Some(FlightView { received_frames: got, left: l, right: r, ..base })),
                    ResultView::Progress { slot, received_frames: got, total_frames: total })
            }
        }),
{
    lemma_chunk_fields(slot, rate, ch, total, start, left, right);
    let b = chunk_message(slot, rate, ch, total, start, left, right);
    let s = slot as int;
    let st1 = if start == 0 { st.update(s, Some(fresh(rate, ch, total))) } else { st };
    assert(st1.update(s, None) =~= st.update(s, None));
    let base = if start == 0 { fresh(rate, ch, total) } else { st[slot as int]->Some_0 };
    assert(st1[s] == Some(base));
    let got = (start + left.len()) as u32;
    let l = write_frames(base.left, start as int, left);
    let r = if ch == 2 { write_frames(base.right, start as int, right) } else { base.right };
    assert(st1.update(s, Some(FlightView { received_frames: got, left: l, right: r, ..base }))
        =~= st.update(s, Some(FlightView { received_frames: got, left: l, right: r, ..base })));
}

/// A whole sample sent as one chunk comes out complete, exactly as sent.
pub proof fn law_single_chunk_round_trip(st: Seq<Option<FlightView>>, slot: u32, rate: u32, ch: u32,
    left: Seq<u32>, right: Seq<u32>)
    requires
        state_ok(st),
        chunk_ok(slot, rate, ch, left.len() as u32, 0, left, right),
    ensures
        spec_push(st, chunk_message(slot, rate, ch, left.len() as u32, 0, left, right)) == (
            st.update(slot as int, None),
            ResultView::Complete { slot, sample_rate: rate, channels: ch, frame_count: left.len(), left, right },
        ),
{
    let total = left.len() as u32;
    law_chunk_in_order(st, slot, rate, ch, total, 0, left, right);
    let base = fresh(rate, ch, total);
    assert(write_frames(base.left, 0, left) =~= left);
    if ch == 2 {
        assert(write_frames(base.right, 0, right) =~= right);
    } else {
        assert(base.right =~= right);
    }
}

} // verus!

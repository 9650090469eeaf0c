//! The structs the host writes into a plugin's memory, as bytes: each is a
//! run of little-endian 32-bit words in the layout a wasm32 CLAP plugin
//! reads.
use vstd::prelude::*;
use crate::wire::{le_bytes, push_le, lemma_le_bytes_len};
use crate::host_pools::HostStubIndices;
use crate::plugin_abi::ext_webview;

verus! {

/// Words, each as four little-endian bytes.
pub open spec fn words_bytes(w: Seq<u32>) -> Seq<u8>
    decreases w.len(),
{
    if w.len() == 0 {
        Seq::empty()
    } else {
        words_bytes(w.drop_last()) + le_bytes(w.last() as nat, 4)
    }
}

/// The bytes of a run of words.
pub fn words_le(w: &[u32]) -> (r: Vec<u8>)
    ensures
        r@ == words_bytes(w@),
{
    let mut out: Vec<u8> = Vec::new();
    let mut i: usize = 0;
    assert(w@.take(0) =~= Seq::<u32>::empty());
    while i < w.len()
        invariant
            i <= w@.len(),
            out@ == words_bytes(w@.take(i as int)),
        decreases w@.len() - i,
    {
        push_le(&mut out, w[i] as u64, 4);
        assert(w@.take(i + 1).drop_last() =~= w@.take(i as int));
        i += 1;
    }
    assert(w@.take(i as int) =~= w@);
    out
}

/// The host struct: CLAP version 1.2.2, the plugin handle as host data,
/// the addresses of the name, vendor, URL and version strings, and the
/// table indices of the four host callbacks.
pub open spec fn host_words(plugin_handle: u32, name: u32, vendor: u32, url: u32, version: u32, stubs: HostStubIndices) -> Seq<u32> {
    seq![1u32, 2, 2, plugin_handle, name, vendor, url, version, stubs.get_extension, stubs.request_restart,
        stubs.request_process, stubs.request_callback]
}

pub fn host_struct(plugin_handle: u32, name: u32, vendor: u32, url: u32, version: u32, stubs: &HostStubIndices) -> (r: Vec<u8>)
    ensures
        r@ == words_bytes(host_words(plugin_handle, name, vendor, url, version, *stubs)),
        r@.len() == 48,
{
    let w: [u32; 12] = [1, 2, 2, plugin_handle, name, vendor, url, version, stubs.get_extension,
        stubs.request_restart, stubs.request_process, stubs.request_callback];
    assert(w@ =~= host_words(plugin_handle, name, vendor, url, version, *stubs));
    let r = words_le(w.as_slice());
    proof { lemma_words_len(w@); }
    r
}

pub proof fn lemma_words_len(w: Seq<u32>)
    ensures
        words_bytes(w).len() == 4 * w.len(),
    decreases w.len(),
{
    if w.len() > 0 {
        lemma_words_len(w.drop_last());
        crate::wire::lemma_le_bytes_len(w.last() as nat, 4);
    }
}

/// A state stream (`clap_istream` / `clap_ostream`): its context (the
/// plugin handle) and the table index of its read or write callback.
pub fn stream_struct(plugin_handle: u32, fn_index: u32) -> (r: Vec<u8>)
    ensures
        r@ == words_bytes(seq![plugin_handle, fn_index]),
{
    let w: [u32; 2] = [plugin_handle, fn_index];
    assert(w@ =~= seq![plugin_handle, fn_index]);
    words_le(w.as_slice())
}

/// The host's webview extension: the table index of its send callback.
pub fn webview_struct(send_index: u32) -> (r: Vec<u8>)
    ensures
        r@ == words_bytes(seq![send_index]),
{
    let w: [u32; 1] = [send_index];
    assert(w@ =~= seq![send_index]);
    words_le(w.as_slice())
}

/// An audio buffer: the address of its channel-pointer array, no 64-bit
/// data, its channel count, zero latency and an empty constant mask.
pub fn audio_buffer_struct(channel_array: u32, channel_count: u32) -> (r: Vec<u8>)
    ensures
        r@ == words_bytes(seq![channel_array, 0u32, channel_count, 0, 0, 0]),
{
    let w: [u32; 6] = [channel_array, 0, channel_count, 0, 0, 0];
    assert(w@ =~= seq![channel_array, 0u32, channel_count, 0, 0, 0]);
    words_le(w.as_slice())
}

/// The input-event list: its context (the plugin handle) and the table
/// indices of its size and get callbacks.
pub fn input_events_struct(plugin_handle: u32, size_fn: u32, get_fn: u32) -> (r: Vec<u8>)
    ensures
        r@ == words_bytes(seq![plugin_handle, size_fn, get_fn]),
{
    let w: [u32; 3] = [plugin_handle, size_fn, get_fn];
    assert(w@ =~= seq![plugin_handle, size_fn, get_fn]);
    words_le(w.as_slice())
}

/// The output-event list: its context and the table index of try-push.
pub fn output_events_struct(plugin_handle: u32, try_push_fn: u32) -> (r: Vec<u8>)
    ensures
        r@ == words_bytes(seq![plugin_handle, try_push_fn]),
{
    let w: [u32; 2] = [plugin_handle, try_push_fn];
    assert(w@ =~= seq![plugin_handle, try_push_fn]);
    words_le(w.as_slice())
}

/// The process struct: steady time -1 (unknown), zero frames (set per
/// block), no transport, the audio buffer arrays and counts, and the two
/// event lists.
pub open spec fn process_words(inputs: u32, outputs: u32, n_in: u32, n_out: u32, in_events: u32, out_events: u32) -> Seq<u32> {
    seq![0xffff_ffffu32, 0xffff_ffff, 0, 0, inputs, outputs, n_in, n_out, in_events, out_events]
}

pub fn process_struct(inputs: u32, outputs: u32, n_in: u32, n_out: u32, in_events: u32, out_events: u32) -> (r: Vec<u8>)
    ensures
        r@ == words_bytes(process_words(inputs, outputs, n_in, n_out, in_events, out_events)),
{
    let w: [u32; 10] = [0xffff_ffff, 0xffff_ffff, 0, 0, inputs, outputs, n_in, n_out, in_events, out_events];
    assert(w@ =~= process_words(inputs, outputs, n_in, n_out, in_events, out_events));
    words_le(w.as_slice())
}


/// A parameter-value event as the host queues it for a plugin: the
/// 16-byte header (size 48, time 0, core event space, type 5, flag "is
/// live"), then the parameter id, no cookie, note id, port, channel and
/// key all -1 (every target), padding, and the value's bit pattern.
pub open spec fn param_value_event_bytes(param_id: u32, value_bits: u64) -> Seq<u8> {
    le_bytes(48, 4) + le_bytes(0, 4) + le_bytes(0, 2) + le_bytes(5, 2) + le_bytes(1, 4)
        + le_bytes(param_id as nat, 4) + le_bytes(0, 4) + le_bytes(0xffff_ffff, 4)
        + le_bytes(0xffff, 2) + le_bytes(0xffff, 2) + le_bytes(0xffff, 2) + le_bytes(0, 6)
        + le_bytes(value_bits as nat, 8)
}

/// The parameter-value event setting `param_id` to the float whose bits
/// are `value_bits`.
pub fn param_value_event(param_id: u32, value_bits: u64) -> (r: Vec<u8>)
    ensures
        r@ == param_value_event_bytes(param_id, value_bits),
        r@.len() == 48,
{
    let mut out: Vec<u8> = Vec::new();
    push_le(&mut out, 48, 4);
    push_le(&mut out, 0, 4);
    push_le(&mut out, 0, 2);
    push_le(&mut out, 5, 2);
    push_le(&mut out, 1, 4);
    push_le(&mut out, param_id as u64, 4);
    push_le(&mut out, 0, 4);
    push_le(&mut out, 0xffff_ffff, 4);
    push_le(&mut out, 0xffff, 2);
    push_le(&mut out, 0xffff, 2);
    push_le(&mut out, 0xffff, 2);
    push_le(&mut out, 0, 6);
    push_le(&mut out, value_bits, 8);
    proof {
        lemma_le_bytes_len(48, 4);
        lemma_le_bytes_len(0, 4);
        lemma_le_bytes_len(0, 2);
        lemma_le_bytes_len(5, 2);
        lemma_le_bytes_len(1, 4);
        lemma_le_bytes_len(param_id as nat, 4);
        lemma_le_bytes_len(0xffff_ffff, 4);
        lemma_le_bytes_len(0xffff, 2);
        lemma_le_bytes_len(0, 6);
        lemma_le_bytes_len(value_bits as nat, 8);
    }
    assert(out@ =~= param_value_event_bytes(param_id, value_bits));
    out
}

/// Whether the extension id a plugin asks the host for starts with
/// `clap.webview/3`, the one extension the host offers.
pub fn asks_host_webview(id: &[u8]) -> (r: bool)
    ensures
        r == (id@.len() >= ext_webview().len() && id@.subrange(0, ext_webview().len() as int) == ext_webview()),
{
    let name: [u8; 14] = [0x63, 0x6c, 0x61, 0x70, 0x2e, 0x77, 0x65, 0x62, 0x76, 0x69, 0x65, 0x77, 0x2f, 0x33];
    assert(name@ =~= ext_webview());
    if id.len() < 14 {
        return false;
    }
    let mut i: usize = 0;
    while i < 14
        invariant
            i <= 14,
            id@.len() >= 14,
            name@ == ext_webview(),
            forall|j: int| 0 <= j < i ==> id@[j] == name@[j],
        decreases 14 - i,
    {
        if id[i] != name[i] {
            assert(id@.subrange(0, 14)[i as int] != ext_webview()[i as int]);
            return false;
        }
        i += 1;
    }
    assert(id@.subrange(0, 14) =~= ext_webview());
    true
}

} // verus!

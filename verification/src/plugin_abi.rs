//! The plugin side of the CLAP ABI: process status codes, the plugin
//! definition, the entry point's struct, which extension an id names, the
//! port-info structs the host reads, and the audio block a plugin
//! processes (channel samples held as the bit patterns of 32-bit floats).
use vstd::prelude::*;
use crate::wire::{le_bytes, push_le};
use crate::plugin_wire::{field_string, write_str_into};

verus! {

/// What a plugin's process call reports.
#[derive(Debug, Clone, Copy, PartialEq, Eq, Structural)]
pub enum ProcessStatus {
    Continue,
    ContinueIfNotQuiet,
    Sleep,
    Tail,
}

impl ProcessStatus {
    /// The status code the host reads.
    pub fn code(self) -> (r: u32)
        ensures
            r == match self {
                ProcessStatus::Continue => 1u32,
                ProcessStatus::ContinueIfNotQuiet => 2u32,
                ProcessStatus::Sleep => 3u32,
                ProcessStatus::Tail => 4u32,
            },
    {
        match self {
            ProcessStatus::Continue => 1,
            ProcessStatus::ContinueIfNotQuiet => 2,
            ProcessStatus::Sleep => 3,
            ProcessStatus::Tail => 4,
        }
    }
}

/// Plugin identity and port shape. Every byte string ends in a NUL.
pub struct PluginDef {
    pub id: &'static [u8],
    pub name: &'static [u8],
    pub vendor: &'static [u8],
    pub url: &'static [u8],
    pub version: &'static [u8],
    pub description: &'static [u8],
    /// Each feature tag, NUL-terminated.
    pub features: &'static [&'static [u8]],
    /// Number of stereo audio input ports (0 or 1).
    pub audio_inputs: u8,
    /// Number of stereo audio output ports (0 or 1).
    pub audio_outputs: u8,
    /// Number of note input ports (0 or 1).
    pub note_inputs: u8,
    /// Path of the UI entry point inside the bundle, with a leading slash
    /// and a NUL; `None` for a plugin without UI.
    pub ui_path: Option<&'static [u8]>,
}

/// Parameter flag bits.
pub const PARAM_IS_STEPPED: u32 = 1;
pub const PARAM_IS_PERIODIC: u32 = 2;
pub const PARAM_IS_HIDDEN: u32 = 4;
pub const PARAM_IS_READONLY: u32 = 8;
pub const PARAM_IS_BYPASS: u32 = 16;
pub const PARAM_IS_AUTOMATABLE: u32 = 32;

/// One automatable parameter. The bounds and default are 64-bit floats,
/// held as their bit patterns.
pub struct ParamDef {
    /// Unique within the plugin and stable across versions.
    pub id: u32,
    pub flags: u32,
    /// NUL-terminated display name.
    pub name: Vec<u8>,
    /// NUL-terminated group path.
    pub module: Vec<u8>,
    pub min_bits: u64,
    pub max_bits: u64,
    pub default_bits: u64,
}

/// A parameter definition as a value.
pub struct ParamView {
    pub id: u32,
    pub flags: u32,
    pub name: Seq<u8>,
    pub module: Seq<u8>,
    pub min_bits: u64,
    pub max_bits: u64,
    pub default_bits: u64,
}

impl ParamDef {
    pub open spec fn view(&self) -> ParamView {
        ParamView {
            id: self.id,
            flags: self.flags,
            name: self.name@,
            module: self.module@,
            min_bits: self.min_bits,
            max_bits: self.max_bits,
            default_bits: self.default_bits,
        }
    }
}

/// The most feature tags a definition may list.
pub const MAX_FEATURES: usize = 8;

impl PluginDef {
    /// The length of the UI path without its NUL (0 without UI).
    pub fn ui_path_len(&self) -> (r: u32)
        requires
            self.ui_path matches Some(p) ==> p@.len() <= u32::MAX,
        ensures
            r == match self.ui_path {
                Some(p) => if p@.len() == 0 { 0 } else { (p@.len() - 1) as u32 },
                None => 0,
            },
    {
        match self.ui_path {
            Some(p) => {
                let n = p.len() as u32;
                if n == 0 { 0 } else { n - 1 }
            },
            None => 0,
        }
    }
}

/// The plugin module's entry struct: the CLAP version it speaks and the
/// table indices of its init, deinit and get-factory functions.
pub struct ClapEntry {
    version_major: u32,
    version_minor: u32,
    version_revision: u32,
    init: u32,
    deinit: u32,
    get_factory: u32,
}

pub open spec fn entry_image(init: u32, deinit: u32, get_factory: u32) -> Seq<u8> {
    le_bytes(1, 4) + le_bytes(2, 4) + le_bytes(2, 4) + le_bytes(init as nat, 4) + le_bytes(deinit as nat, 4)
        + le_bytes(get_factory as nat, 4)
}

impl ClapEntry {
    /// The entry always speaks CLAP 1.2.2.
    #[verifier::type_invariant]
    spec fn speaks_1_2_2(&self) -> bool {
        self.version_major == 1 && self.version_minor == 2 && self.version_revision == 2
    }

    pub closed spec fn fields(&self) -> (u32, u32, u32) {
        (self.init, self.deinit, self.get_factory)
    }

    /// An entry for CLAP 1.2.2.
    pub fn new(init: u32, deinit: u32, get_factory: u32) -> (r: ClapEntry)
        ensures
            r.fields() == (init, deinit, get_factory),
    {
        ClapEntry { version_major: 1, version_minor: 2, version_revision: 2, init, deinit, get_factory }
    }

    /// The 24 bytes the host reads.
    pub fn image(&self) -> (r: Vec<u8>)
        ensures
            r@ == entry_image(self.fields().0, self.fields().1, self.fields().2),
    {
        proof {
            use_type_invariant(self);
        }
        let mut out: Vec<u8> = Vec::new();
        push_le(&mut out, self.version_major as u64, 4);
        push_le(&mut out, self.version_minor as u64, 4);
        push_le(&mut out, self.version_revision as u64, 4);
        push_le(&mut out, self.init as u64, 4);
        push_le(&mut out, self.deinit as u64, 4);
        push_le(&mut out, self.get_factory as u64, 4);
        out
    }
}


// ---------------------------------------------------------------------------
// Extensions
// ---------------------------------------------------------------------------

/// The extensions a plugin offers.
#[derive(Debug, Clone, Copy, PartialEq, Eq, Structural)]
pub enum Extension {
    AudioPorts,
    NotePorts,
    Webview,
    Params,
    State,
    Latency,
}

/// `s` starts with the bytes of `name` and then a NUL.
pub open spec fn names(s: Seq<u8>, name: Seq<u8>) -> bool {
    s.len() > name.len() && s.subrange(0, name.len() as int) == name && s[name.len() as int] == 0
}

/// `clap.audio-ports`
pub open spec fn ext_audio_ports() -> Seq<u8> {
    seq![0x63u8, 0x6c, 0x61, 0x70, 0x2e, 0x61, 0x75, 0x64, 0x69, 0x6f, 0x2d, 0x70, 0x6f, 0x72, 0x74, 0x73]
}

/// `clap.note-ports`
pub open spec fn ext_note_ports() -> Seq<u8> {
    seq![0x63u8, 0x6c, 0x61, 0x70, 0x2e, 0x6e, 0x6f, 0x74, 0x65, 0x2d, 0x70, 0x6f, 0x72, 0x74, 0x73]
}

/// `clap.webview/3`
pub open spec fn ext_webview() -> Seq<u8> {
    seq![0x63u8, 0x6c, 0x61, 0x70, 0x2e, 0x77, 0x65, 0x62, 0x76, 0x69, 0x65, 0x77, 0x2f, 0x33]
}

/// `clap.params`
pub open spec fn ext_params() -> Seq<u8> {
    seq![0x63u8, 0x6c, 0x61, 0x70, 0x2e, 0x70, 0x61, 0x72, 0x61, 0x6d, 0x73]
}

/// `clap.state`
pub open spec fn ext_state() -> Seq<u8> {
    seq![0x63u8, 0x6c, 0x61, 0x70, 0x2e, 0x73, 0x74, 0x61, 0x74, 0x65]
}

/// `clap.latency`
pub open spec fn ext_latency() -> Seq<u8> {
    seq![0x63u8, 0x6c, 0x61, 0x70, 0x2e, 0x6c, 0x61, 0x74, 0x65, 0x6e, 0x63, 0x79]
}


/// The extension an id names: audio and note ports and latency always;
/// the webview only for a plugin with a UI; params and state only for a
/// plugin with parameters.
pub open spec fn spec_extension_for(id: Seq<u8>, has_ui: bool, has_params: bool) -> Option<Extension> {
    if names(id, ext_audio_ports()) {
        Some(Extension::AudioPorts)
    } else if names(id, ext_note_ports()) {
        Some(Extension::NotePorts)
    } else if names(id, ext_webview()) && has_ui {
        Some(Extension::Webview)
    } else if names(id, ext_params()) && has_params {
        Some(Extension::Params)
    } else if names(id, ext_state()) && has_params {
        Some(Extension::State)
    } else if names(id, ext_latency()) {
        Some(Extension::Latency)
    } else {
        None
    }
}

fn names_exec(id: &[u8], name: &[u8]) -> (r: bool)
    ensures
        r == names(id@, name@),
{
    if id.len() <= name.len() {
        return false;
    }
    let mut i: usize = 0;
    while i < name.len()
        invariant
            i <= name@.len(),
            id@.len() > name@.len(),
            forall|j: int| 0 <= j < i ==> id@[j] == name@[j],
        decreases name@.len() - i,
    {
        if id[i] != name[i] {
            assert(id@.subrange(0, name@.len() as int)[i as int] != name@[i as int]);
            return false;
        }
        i += 1;
    }
    assert(id@.subrange(0, name@.len() as int) =~= name@);
    id[name.len()] == 0
}

/// The extension a NUL-terminated id names, if the plugin offers it.
pub fn extension_for(id: &[u8], has_ui: bool, has_params: bool) -> (r: Option<Extension>)
    ensures
        r == spec_extension_for(id@, has_ui, has_params),
{
    let audio_ports_id: [u8; 16] = [0x63, 0x6c, 0x61, 0x70, 0x2e, 0x61, 0x75, 0x64, 0x69, 0x6f, 0x2d, 0x70, 0x6f, 0x72, 0x74, 0x73];
    assert(audio_ports_id@ =~= ext_audio_ports());
    let note_ports_id: [u8; 15] = [0x63, 0x6c, 0x61, 0x70, 0x2e, 0x6e, 0x6f, 0x74, 0x65, 0x2d, 0x70, 0x6f, 0x72, 0x74, 0x73];
    assert(note_ports_id@ =~= ext_note_ports());
    let webview_id: [u8; 14] = [0x63, 0x6c, 0x61, 0x70, 0x2e, 0x77, 0x65, 0x62, 0x76, 0x69, 0x65, 0x77, 0x2f, 0x33];
    assert(webview_id@ =~= ext_webview());
    let params_id: [u8; 11] = [0x63, 0x6c, 0x61, 0x70, 0x2e, 0x70, 0x61, 0x72, 0x61, 0x6d, 0x73];
    assert(params_id@ =~= ext_params());
    let state_id: [u8; 10] = [0x63, 0x6c, 0x61, 0x70, 0x2e, 0x73, 0x74, 0x61, 0x74, 0x65];
    assert(state_id@ =~= ext_state());
    let latency_id: [u8; 12] = [0x63, 0x6c, 0x61, 0x70, 0x2e, 0x6c, 0x61, 0x74, 0x65, 0x6e, 0x63, 0x79];
    assert(latency_id@ =~= ext_latency());
    if names_exec(id, audio_ports_id.as_slice()) {
        Some(Extension::AudioPorts)
    } else if names_exec(id, note_ports_id.as_slice()) {
        Some(Extension::NotePorts)
    } else if names_exec(id, webview_id.as_slice()) && has_ui {
        Some(Extension::Webview)
    } else if names_exec(id, params_id.as_slice()) && has_params {
        Some(Extension::Params)
    } else if names_exec(id, state_id.as_slice()) && has_params {
        Some(Extension::State)
    } else if names_exec(id, latency_id.as_slice()) {
        Some(Extension::Latency)
    } else {
        None
    }
}

// ---------------------------------------------------------------------------
// Port info
// ---------------------------------------------------------------------------

pub open spec fn zero_bytes(n: nat) -> Seq<u8> {
    Seq::new(n, |i: int| 0u8)
}

fn push_zeros(out: &mut Vec<u8>, n: usize)
    ensures
        final(out)@ == old(out)@ + zero_bytes(n as nat),
{
    let mut i: usize = 0;
    while i < n
        invariant
            i <= n,
            out@ == old(out)@ + zero_bytes(i as nat),
        decreases n - i,
    {
        out.push(0);
        assert(out@ =~= old(out)@ + zero_bytes((i + 1) as nat));
        i += 1;
    }
}

fn push_bytes(out: &mut Vec<u8>, b: &[u8])
    ensures
        final(out)@ == old(out)@ + b@,
{
    out.extend_from_slice(b);
}

/// The number of audio ports on a side.
pub fn audio_ports_count(def: &PluginDef, is_input: u32) -> (r: u32)
    ensures
        r == if is_input != 0 { def.audio_inputs } else { def.audio_outputs },
{
    if is_input != 0 { def.audio_inputs as u32 } else { def.audio_outputs as u32 }
}

/// The number of note ports on a side: note inputs only.
pub fn note_ports_count(def: &PluginDef, is_input: u32) -> (r: u32)
    ensures
        r == if is_input != 0 { def.note_inputs } else { 0 },
{
    if is_input != 0 { def.note_inputs as u32 } else { 0 }
}

pub open spec fn input_name() -> Seq<u8> { seq![0x49u8, 0x6e, 0x70, 0x75, 0x74, 0x00] }
pub open spec fn output_name() -> Seq<u8> { seq![0x4fu8, 0x75, 0x74, 0x70, 0x75, 0x74, 0x00] }
pub open spec fn notes_name() -> Seq<u8> { seq![0x4eu8, 0x6f, 0x74, 0x65, 0x73, 0x00] }

/// The 276-byte audio port info: id, the NUL-terminated name in a 256-byte
/// field, the main-port flag (1) and two channels.
pub open spec fn audio_port_image(index: u32, is_input: bool) -> Seq<u8> {
    let name = if is_input { input_name() } else { output_name() };
    le_bytes(index as nat, 4) + name + zero_bytes((256 - name.len()) as nat) + le_bytes(1, 4) + le_bytes(2, 4)
        + zero_bytes(8)
}

/// The info of audio port `index` on a side, if there is such a port.
pub fn audio_port_info(def: &PluginDef, index: u32, is_input: u32) -> (r: Option<Vec<u8>>)
    ensures
        index >= (if is_input != 0 { def.audio_inputs } else { def.audio_outputs }) ==> r is None,
        index < (if is_input != 0 { def.audio_inputs } else { def.audio_outputs }) ==>
            (r matches Some(b) && b@ == audio_port_image(index, is_input != 0)),
{
    if index >= audio_ports_count(def, is_input) {
        return None;
    }
    let mut out: Vec<u8> = Vec::new();
    push_le(&mut out, index as u64, 4);
    if is_input != 0 {
        let name: [u8; 6] = [0x49, 0x6e, 0x70, 0x75, 0x74, 0x00];
        assert(name@ =~= input_name());
        push_bytes(&mut out, name.as_slice());
        push_zeros(&mut out, 250);
    } else {
        let name: [u8; 7] = [0x4f, 0x75, 0x74, 0x70, 0x75, 0x74, 0x00];
        assert(name@ =~= output_name());
        push_bytes(&mut out, name.as_slice());
        push_zeros(&mut out, 249);
    }
    push_le(&mut out, 1, 4);
    push_le(&mut out, 2, 4);
    push_zeros(&mut out, 8);
    Some(out)
}

/// The 268-byte note port info: id, the dialects it takes (CLAP and
/// MIDI), the one it prefers (CLAP), and the NUL-terminated name "Notes"
/// in a 256-byte field.
pub open spec fn note_port_image(index: u32) -> Seq<u8> {
    le_bytes(index as nat, 4) + le_bytes(3, 4) + le_bytes(1, 4) + notes_name() + zero_bytes(250)
}

/// The info of note port `index` on a side, if there is such a port.
pub fn note_port_info(def: &PluginDef, index: u32, is_input: u32) -> (r: Option<Vec<u8>>)
    ensures
        index >= (if is_input != 0 { def.note_inputs } else { 0 }) ==> r is None,
        index < (if is_input != 0 { def.note_inputs } else { 0 }) ==>
            (r matches Some(b) && b@ == note_port_image(index)),
{
    if index >= note_ports_count(def, is_input) {
        return None;
    }
    let mut out: Vec<u8> = Vec::new();
    push_le(&mut out, index as u64, 4);
    push_le(&mut out, 3, 4);
    push_le(&mut out, 1, 4);
    let name: [u8; 6] = [0x4e, 0x6f, 0x74, 0x65, 0x73, 0x00];
    assert(name@ =~= notes_name());
    push_bytes(&mut out, name.as_slice());
    push_zeros(&mut out, 250);
    Some(out)
}

// ---------------------------------------------------------------------------
// The audio block
// ---------------------------------------------------------------------------

/// One block of audio: the frame count, and per port the channel buffers
/// that are present (a port's channel list stops at its first absent
/// channel). Samples are the bit patterns of 32-bit floats.
pub struct ProcessCtx {
    frames: usize,
    inputs: Vec<Vec<Vec<u32>>>,
    outputs: Vec<Vec<Vec<u32>>>,
}

pub open spec fn ports_view(p: Seq<Vec<Vec<u32>>>) -> Seq<Seq<Seq<u32>>> {
    p.map_values(|chans: Vec<Vec<u32>>| chans@.map_values(|c: Vec<u32>| c@))
}

/// A channel with its first `min(len, frames)` samples zeroed.
pub open spec fn silenced(c: Seq<u32>, frames: nat) -> Seq<u32> {
    Seq::new(c.len(), |i: int| if i < frames { 0u32 } else { c[i] })
}

/// The number of leading output ports that have at least one channel.
pub open spec fn live_ports(outs: Seq<Seq<Seq<u32>>>) -> nat
    decreases outs.len(),
{
    if outs.len() == 0 || outs[0].len() == 0 {
        0
    } else {
        1 + live_ports(outs.drop_first())
    }
}

impl ProcessCtx {
    pub closed spec fn frames_spec(&self) -> nat {
        self.frames as nat
    }

    pub closed spec fn inputs_spec(&self) -> Seq<Seq<Seq<u32>>> {
        ports_view(self.inputs@)
    }

    pub closed spec fn outputs_spec(&self) -> Seq<Seq<Seq<u32>>> {
        ports_view(self.outputs@)
    }

    pub fn new(frames: usize, inputs: Vec<Vec<Vec<u32>>>, outputs: Vec<Vec<Vec<u32>>>) -> (r: ProcessCtx)
        ensures
            r.frames_spec() == frames,
            r.inputs_spec() == ports_view(inputs@),
            r.outputs_spec() == ports_view(outputs@),
    {
        ProcessCtx { frames, inputs, outputs }
    }

    /// Number of frames in this block.
    pub fn frames(&self) -> (r: usize)
        ensures
            r == self.frames_spec(),
    {
        self.frames
    }

    /// Channel `ch` of input port `port`, if present.
    pub fn input(&self, port: usize, ch: usize) -> (r: Option<&Vec<u32>>)
        ensures
            match r {
                Some(c) => port < self.inputs_spec().len() && ch < self.inputs_spec()[port as int].len()
                    && c@ == self.inputs_spec()[port as int][ch as int],
                None => port >= self.inputs_spec().len() || ch >= self.inputs_spec()[port as int].len(),
            },
    {
        if port < self.inputs.len() && ch < self.inputs[port].len() {
            Some(&self.inputs[port][ch])
        } else {
            None
        }
    }

    /// Channel `ch` of output port `port`, if present.
    pub fn output(&self, port: usize, ch: usize) -> (r: Option<&Vec<u32>>)
        ensures
            match r {
                Some(c) => port < self.outputs_spec().len() && ch < self.outputs_spec()[port as int].len()
                    && c@ == self.outputs_spec()[port as int][ch as int],
                None => port >= self.outputs_spec().len() || ch >= self.outputs_spec()[port as int].len(),
            },
    {
        if port < self.outputs.len() && ch < self.outputs[port].len() {
            Some(&self.outputs[port][ch])
        } else {
            None
        }
    }

    /// Channel count of input port 0 (0 without an input port).
    pub fn input_channel_count(&self) -> (r: usize)
        ensures
            r == if self.inputs_spec().len() > 0 { self.inputs_spec()[0].len() } else { 0 },
    {
        if self.inputs.len() > 0 { self.inputs[0].len() } else { 0 }
    }

    /// Channel count of output port 0 (0 without an output port).
    pub fn output_channel_count(&self) -> (r: usize)
        ensures
            r == if self.outputs_spec().len() > 0 { self.outputs_spec()[0].len() } else { 0 },
    {
        if self.outputs.len() > 0 { self.outputs[0].len() } else { 0 }
    }
}

/// Moves element `i` out of `v`, leaving `filler` in its place.
fn take_at<T>(v: &mut Vec<T>, i: usize, filler: T) -> (r: T)
    requires
        i < old(v)@.len(),
    ensures
        r == old(v)@[i as int],
        final(v)@ == old(v)@.update(i as int, filler),
{
    v.push(filler);
    let r = v.swap_remove(i);
    assert(v@ =~= old(v)@.update(i as int, filler));
    r
}

proof fn lemma_live_ports_at_least(outs: Seq<Seq<Seq<u32>>>, k: int)
    requires
        0 <= k <= outs.len(),
        forall|q: int| 0 <= q < k ==> #[trigger] outs[q].len() > 0,
    ensures
        live_ports(outs) >= k,
    decreases k,
{
    if k > 0 {
        let t = outs.drop_first();
        assert forall|q: int| 0 <= q < k - 1 implies #[trigger] t[q].len() > 0 by {
            assert(t[q] == outs[q + 1]);
        }
        lemma_live_ports_at_least(t, k - 1);
        assert(outs[0].len() > 0);
    }
}

proof fn lemma_live_ports_exact(outs: Seq<Seq<Seq<u32>>>, k: int)
    requires
        0 <= k <= outs.len(),
        forall|q: int| 0 <= q < k ==> #[trigger] outs[q].len() > 0,
        k == outs.len() || outs[k].len() == 0,
    ensures
        live_ports(outs) == k,
    decreases k,
{
    if k > 0 {
        let t = outs.drop_first();
        assert forall|q: int| 0 <= q < k - 1 implies #[trigger] t[q].len() > 0 by {
            assert(t[q] == outs[q + 1]);
        }
        if k < outs.len() {
            assert(t[k - 1] == outs[k]);
        }
        lemma_live_ports_exact(t, k - 1);
        assert(outs[0].len() > 0);
    }
}

fn silence_channel(c: &mut Vec<u32>, frames: usize)
    ensures
        final(c)@ == silenced(old(c)@, frames as nat),
{
    let n = if c.len() < frames { c.len() } else { frames };
    let mut i: usize = 0;
    while i < n
        invariant
            i <= n,
            n <= old(c)@.len(),
            n == (if old(c)@.len() < frames { old(c)@.len() } else { frames as nat }),
            c@.len() == old(c)@.len(),
            forall|j: int| 0 <= j < c@.len() ==> #[trigger] c@[j] == if j < i { 0u32 } else { old(c)@[j] },
        decreases n - i,
    {
        c.set(i, 0);
        i += 1;
    }
    assert(c@ =~= silenced(old(c)@, frames as nat));
}

fn silence_port(chans: &mut Vec<Vec<u32>>, frames: usize)
    ensures
        final(chans)@.map_values(|c: Vec<u32>| c@) == old(chans)@.map_values(|c: Vec<u32>| silenced(c@, frames as nat)),
{
    let mut i: usize = 0;
    while i < chans.len()
        invariant
            i <= chans@.len(),
            chans@.len() == old(chans)@.len(),
            forall|j: int| 0 <= j < chans@.len() ==> #[trigger] chans@[j]@ == if j < i {
                silenced(old(chans)@[j]@, frames as nat)
            } else {
                old(chans)@[j]@
            },
        decreases chans@.len() - i,
    {
        let mut c = take_at(chans, i, Vec::new());
        silence_channel(&mut c, frames);
        chans.set(i, c);
        i += 1;
    }
    assert(chans@.map_values(|c: Vec<u32>| c@) =~= old(chans)@.map_values(|c: Vec<u32>| silenced(c@, frames as nat)));
}

/// Zeroes every output channel of the block, port by port from port 0,
/// stopping at the first port without channels.
pub fn silence(ctx: &mut ProcessCtx)
    ensures
        final(ctx).frames_spec() == old(ctx).frames_spec(),
        final(ctx).inputs_spec() == old(ctx).inputs_spec(),
        final(ctx).outputs_spec().len() == old(ctx).outputs_spec().len(),
        forall|p: int| 0 <= p < old(ctx).outputs_spec().len() ==> #[trigger] final(ctx).outputs_spec()[p] == if p
            < live_ports(old(ctx).outputs_spec()) {
            old(ctx).outputs_spec()[p].map_values(|c: Seq<u32>| silenced(c, old(ctx).frames_spec()))
        } else {
            old(ctx).outputs_spec()[p]
        },
{
    let frames = ctx.frames;
    let ghost outs = ports_view(ctx.outputs@);
    let mut port: usize = 0;
    while port < ctx.outputs.len() && ctx.outputs[port].len() > 0
        invariant
            port <= ctx.outputs@.len(),
            ctx.frames == frames,
            ctx.frames == old(ctx).frames,
            ctx.inputs == old(ctx).inputs,
            outs == ports_view(old(ctx).outputs@),
            ctx.outputs@.len() == outs.len(),
            port <= live_ports(outs),
            forall|q: int| 0 <= q < port ==> #[trigger] outs[q].len() > 0,
            forall|p: int| 0 <= p < outs.len() ==> #[trigger] ports_view(ctx.outputs@)[p] == if p < port {
                outs[p].map_values(|c: Seq<u32>| silenced(c, frames as nat))
            } else {
                outs[p]
            },
        decreases ctx.outputs@.len() - port,
    {
        assert(ports_view(ctx.outputs@)[port as int] == outs[port as int]);
        assert(outs[port as int].len() == ctx.outputs@[port as int]@.len());
        proof { lemma_live_ports_at_least(outs, port + 1); }
        let ghost start_outs = ctx.outputs@;
        let mut chans = take_at(&mut ctx.outputs, port, Vec::new());
        let ghost before = chans@;
        assert(outs[port as int] =~= before.map_values(|c: Vec<u32>| c@));
        silence_port(&mut chans, frames);
        let ghost after = chans@;
        ctx.outputs.set(port, chans);
        assert(ports_view(ctx.outputs@)[port as int] =~= outs[port as int].map_values(|c: Seq<u32>| silenced(c, frames as nat))) by {
            assert(ports_view(ctx.outputs@)[port as int] == after.map_values(|c: Vec<u32>| c@));
        }
        assert forall|p: int| 0 <= p < outs.len() implies #[trigger] ports_view(ctx.outputs@)[p] == if p < port + 1 {
            outs[p].map_values(|c: Seq<u32>| silenced(c, frames as nat))
        } else {
            outs[p]
        } by {
            if p != port as int {
                assert(ctx.outputs@[p] == start_outs[p]);
                assert(ports_view(ctx.outputs@)[p] == ports_view(start_outs)[p]);
            }
        }
        port += 1;
    }
    proof {
        if port < outs.len() {
            assert(ports_view(ctx.outputs@)[port as int] == outs[port as int]);
            assert(outs[port as int].len() == ctx.outputs@[port as int]@.len());
        }
        lemma_live_ports_exact(outs, port as int);
    }
}


// ---------------------------------------------------------------------------
// Parameter info
// ---------------------------------------------------------------------------

/// The 1320-byte parameter info a plugin fills for the host: id, flags, a
/// zero cookie, the name in a 256-byte field, the group path in a
/// 1024-byte field (each cut and NUL-terminated, the rest zero), then the
/// minimum, maximum and default as little-endian float bits.
pub open spec fn param_info_image(d: ParamView) -> Seq<u8> {
    let name = field_string(d.name, 256);
    let module = field_string(d.module, 1024);
    le_bytes(d.id as nat, 4) + le_bytes(d.flags as nat, 4) + le_bytes(0, 4) + name
        + zero_bytes((256 - name.len()) as nat) + module + zero_bytes((1024 - module.len()) as nat)
        + zero_bytes(4) + le_bytes(d.min_bits as nat, 8) + le_bytes(d.max_bits as nat, 8)
        + le_bytes(d.default_bits as nat, 8)
}

proof fn lemma_field_string_len(src: Seq<u8>, cap: nat)
    requires
        cap >= 1,
    ensures
        1 <= field_string(src, cap).len() <= cap,
{
}

/// The parameter info of `d`.
pub fn param_info(d: &ParamDef) -> (r: Vec<u8>)
    ensures
        r@ == param_info_image(d.view()),
{
    let mut out: Vec<u8> = Vec::new();
    push_le(&mut out, d.id as u64, 4);
    push_le(&mut out, d.flags as u64, 4);
    push_le(&mut out, 0, 4);
    let name = write_str_into(256, d.name.as_slice());
    proof { lemma_field_string_len(d.name@, 256); }
    push_bytes(&mut out, name.as_slice());
    push_zeros(&mut out, 256 - name.len());
    let module = write_str_into(1024, d.module.as_slice());
    proof { lemma_field_string_len(d.module@, 1024); }
    push_bytes(&mut out, module.as_slice());
    push_zeros(&mut out, 1024 - module.len());
    push_zeros(&mut out, 4);
    push_le(&mut out, d.min_bits, 8);
    push_le(&mut out, d.max_bits, 8);
    push_le(&mut out, d.default_bits, 8);
    out
}

} // verus!

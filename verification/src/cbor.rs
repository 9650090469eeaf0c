//! The CBOR the host writes for the page: item heads, text strings, maps,
//! arrays and 64-bit floats (given as their bit patterns), and the
//! documents built from them.
use vstd::prelude::*;
use crate::wire::{be_bytes, be_value, push_be, read_le, le_value, le_bytes, lemma_be_bytes_len, lemma_be_roundtrip,
    lemma_pow256_values, lemma_le_roundtrip, lemma_le_bytes_len, lemma_le_value_bound, pow256};
use crate::plugin_wire::{before_nul, field_string};
use crate::plugin_abi::{ParamView, param_info_image, zero_bytes};

verus! {

/// The head of an item of major type `major` (its top three bits) and
/// argument `n`: the argument inline below 24, else in 1, 2 or 4 bytes
/// big-endian after an additional-info of 24, 25 or 26. An argument of
/// 2^32 or more keeps only its low 32 bits.
pub open spec fn cbor_head(major: u8, n: nat) -> Seq<u8> {
    if n < 24 {
        seq![major | (n as u8)]
    } else if n < 256 {
        seq![major | 24u8, n as u8]
    } else if n < 0x1_0000 {
        seq![major | 25u8] + be_bytes(n, 2)
    } else {
        seq![major | 26u8] + be_bytes(n % 0x1_0000_0000, 4)
    }
}

/// Appends an item head.
pub fn cbor_uint_header(out: &mut Vec<u8>, major: u8, n: u64)
    ensures
        final(out)@ == old(out)@ + cbor_head(major, n as nat),
{
    if n < 24 {
        out.push(major | n as u8);
    } else if n < 256 {
        out.push(major | 24);
        out.push(n as u8);
    } else if n < 65536 {
        out.push(major | 25);
        push_be(out, n, 2);
    } else {
        out.push(major | 26);
        push_be(out, n % 0x1_0000_0000, 4);
    }
    proof {
        if n >= 256 && n < 65536 {
            assert(be_bytes(n as nat, 2) == be_bytes(n as nat, 2));
        }
    }
    assert(out@ =~= old(out)@ + cbor_head(major, n as nat));
}

/// A text string: its head (major type 3) and its bytes.
pub open spec fn cbor_text_bytes(s: Seq<u8>) -> Seq<u8> {
    cbor_head(0x60, s.len()) + s
}

/// Appends a text string of the given UTF-8 bytes.
pub fn cbor_text(out: &mut Vec<u8>, s: &[u8])
    ensures
        final(out)@ == old(out)@ + cbor_text_bytes(s@),
{
    cbor_uint_header(out, 0x60, s.len() as u64);
    out.extend_from_slice(s);
    assert(out@ =~= old(out)@ + cbor_text_bytes(s@));
}

/// Appends the head of a map of `n` entries.
pub fn cbor_map_header(out: &mut Vec<u8>, n: u64)
    ensures
        final(out)@ == old(out)@ + cbor_head(0xa0, n as nat),
{
    cbor_uint_header(out, 0xa0, n);
}

/// Appends the head of an array of `n` items.
pub fn cbor_array_header(out: &mut Vec<u8>, n: u64)
    ensures
        final(out)@ == old(out)@ + cbor_head(0x80, n as nat),
{
    cbor_uint_header(out, 0x80, n);
}

/// A 64-bit float: `0xfb` and the bit pattern big-endian.
pub open spec fn cbor_f64_bytes(bits: u64) -> Seq<u8> {
    seq![0xfbu8] + be_bytes(bits as nat, 8)
}

/// Appends a 64-bit float given as its bit pattern.
pub fn cbor_f64_bits(out: &mut Vec<u8>, bits: u64)
    ensures
        final(out)@ == old(out)@ + cbor_f64_bytes(bits),
{
    out.push(0xfb);
    push_be(out, bits, 8);
    assert(out@ =~= old(out)@ + cbor_f64_bytes(bits));
}

// ---------------------------------------------------------------------------
// Reading heads back
// ---------------------------------------------------------------------------

/// The major type, argument and length of the head at the start of `b`,
/// when it is a head of the forms written above.
pub open spec fn read_head(b: Seq<u8>) -> Option<(u8, nat, nat)> {
    if b.len() == 0 {
        None
    } else {
        let major = b[0] & 0xe0u8;
        let info = b[0] & 0x1fu8;
        if info < 24 {
            Some((major, info as nat, 1))
        } else if info == 24 && b.len() >= 2 {
            Some((major, b[1] as nat, 2))
        } else if info == 25 && b.len() >= 3 {
            Some((major, be_value(b.subrange(1, 3)), 3))
        } else if info == 26 && b.len() >= 5 {
            Some((major, be_value(b.subrange(1, 5)), 5))
        } else {
            None
        }
    }
}

/// A head written for a major type and an argument below 2^32 reads back
/// as that major type and argument, whatever follows it.
pub proof fn law_head_round_trip(major: u8, n: nat, rest: Seq<u8>)
    requires
        major & 0x1fu8 == 0,
        n < 0x1_0000_0000,
    ensures
        read_head(cbor_head(major, n) + rest) == Some((major, n, cbor_head(major, n).len())),
{
    lemma_pow256_values();
    let b = cbor_head(major, n) + rest;
    if n < 24 {
        let x = n as u8;
        assert((major | x) & 0xe0u8 == major && (major | x) & 0x1fu8 == x) by (bit_vector)
            requires
                major & 0x1fu8 == 0,
                x < 24,
        ;
    } else if n < 256 {
        assert((major | 24u8) & 0xe0u8 == major && (major | 24u8) & 0x1fu8 == 24) by (bit_vector)
            requires
                major & 0x1fu8 == 0,
        ;
    } else if n < 0x1_0000 {
        assert((major | 25u8) & 0xe0u8 == major && (major | 25u8) & 0x1fu8 == 25) by (bit_vector)
            requires
                major & 0x1fu8 == 0,
        ;
        lemma_be_bytes_len(n, 2);
        lemma_be_roundtrip(n, 2);
        assert(b.subrange(1, 3) =~= be_bytes(n, 2));
    } else {
        assert((major | 26u8) & 0xe0u8 == major && (major | 26u8) & 0x1fu8 == 26) by (bit_vector)
            requires
                major & 0x1fu8 == 0,
        ;
        lemma_be_bytes_len(n, 4);
        lemma_be_roundtrip(n, 4);
        assert(b.subrange(1, 5) =~= be_bytes(n, 4));
    }
}

// ---------------------------------------------------------------------------
// Documents for the page
// ---------------------------------------------------------------------------

pub open spec fn id_maps(ids: Seq<Seq<u8>>) -> Seq<u8>
    decreases ids.len(),
{
    if ids.len() == 0 {
        Seq::empty()
    } else {
        id_maps(ids.drop_last()) + cbor_head(0xa0, 1) + cbor_text_bytes(seq![0x69u8, 0x64])
            + cbor_text_bytes(ids.last())
    }
}

pub open spec fn plugins_key() -> Seq<u8> {
    seq![0x70u8, 0x6c, 0x75, 0x67, 0x69, 0x6e, 0x73]
}

/// The plugin list for the page, one `{id}` map per plugin id.
pub fn plugins_info(ids: &Vec<Vec<u8>>) -> (r: Vec<u8>)
    ensures
        r@ == cbor_head(0xa0, 1) + cbor_text_bytes(plugins_key()) + cbor_head(0x80, ids@.len())
            + id_maps(ids@.map_values(|v: Vec<u8>| v@)),
{
    let mut out: Vec<u8> = Vec::new();
    cbor_map_header(&mut out, 1);
    let key: [u8; 7] = [0x70, 0x6c, 0x75, 0x67, 0x69, 0x6e, 0x73];
    cbor_text(&mut out, key.as_slice());
    cbor_array_header(&mut out, ids.len() as u64);
    let ghost head = out@;
    let ghost idv = ids@.map_values(|v: Vec<u8>| v@);
    let id_key: [u8; 2] = [0x69, 0x64];
    let mut i: usize = 0;
    assert(idv.take(0) =~= Seq::<Seq<u8>>::empty());
    while i < ids.len()
        invariant
            i <= ids@.len(),
            idv == ids@.map_values(|v: Vec<u8>| v@),
            id_key@ == seq![0x69u8, 0x64],
            out@ == head + id_maps(idv.take(i as int)),
        decreases ids@.len() - i,
    {
        cbor_map_header(&mut out, 1);
        cbor_text(&mut out, id_key.as_slice());
        cbor_text(&mut out, ids[i].as_slice());
        assert(idv.take(i + 1).drop_last() =~= idv.take(i as int));
        assert(out@ =~= head + id_maps(idv.take(i + 1)));
        i += 1;
    }
    assert(idv.take(i as int) =~= idv);
    out
}

/// The channel-buffer lists of ports: an array per port of its channels'
/// buffer addresses.
pub open spec fn port_list(ports: Seq<Seq<u32>>) -> Seq<u8> {
    cbor_head(0x80, ports.len()) + port_items(ports)
}

pub open spec fn port_items(ports: Seq<Seq<u32>>) -> Seq<u8>
    decreases ports.len(),
{
    if ports.len() == 0 {
        Seq::empty()
    } else {
        port_items(ports.drop_last()) + cbor_head(0x80, ports.last().len()) + uints(ports.last())
    }
}

pub open spec fn uints(xs: Seq<u32>) -> Seq<u8>
    decreases xs.len(),
{
    if xs.len() == 0 {
        Seq::empty()
    } else {
        uints(xs.drop_last()) + cbor_head(0x00, xs.last() as nat)
    }
}

fn push_uints(out: &mut Vec<u8>, xs: &Vec<u32>)
    ensures
        final(out)@ == old(out)@ + uints(xs@),
{
    let mut i: usize = 0;
    assert(xs@.take(0) =~= Seq::<u32>::empty());
    while i < xs.len()
        invariant
            i <= xs@.len(),
            out@ == old(out)@ + uints(xs@.take(i as int)),
        decreases xs@.len() - i,
    {
        cbor_uint_header(out, 0x00, xs[i] as u64);
        assert(xs@.take(i + 1).drop_last() =~= xs@.take(i as int));
        assert(out@ =~= old(out)@ + uints(xs@.take(i + 1)));
        i += 1;
    }
    assert(xs@.take(i as int) =~= xs@);
}

/// Appends the channel-buffer lists of ports.
pub fn cbor_port_list(out: &mut Vec<u8>, ports: &Vec<Vec<u32>>)
    ensures
        final(out)@ == old(out)@ + port_list(ports@.map_values(|v: Vec<u32>| v@)),
{
    let ghost pv = ports@.map_values(|v: Vec<u32>| v@);
    cbor_array_header(out, ports.len() as u64);
    let ghost head = out@;
    let mut i: usize = 0;
    assert(pv.take(0) =~= Seq::<Seq<u32>>::empty());
    while i < ports.len()
        invariant
            i <= ports@.len(),
            pv == ports@.map_values(|v: Vec<u32>| v@),
            head == old(out)@ + cbor_head(0x80, ports@.len() as nat),
            out@ == head + port_items(pv.take(i as int)),
        decreases ports@.len() - i,
    {
        cbor_array_header(out, ports[i].len() as u64);
        push_uints(out, &ports[i]);
        assert(pv.take(i + 1).drop_last() =~= pv.take(i as int));
        assert(out@ =~= head + port_items(pv.take(i + 1)));
        i += 1;
    }
    assert(pv.take(i as int) =~= pv);
    assert(out@ =~= old(out)@ + port_list(pv));
}

pub open spec fn inputs_key() -> Seq<u8> {
    seq![0x69u8, 0x6e, 0x70, 0x75, 0x74, 0x73]
}

pub open spec fn outputs_key() -> Seq<u8> {
    seq![0x6fu8, 0x75, 0x74, 0x70, 0x75, 0x74, 0x73]
}

/// `{inputs: [[..], ..], outputs: [[..], ..]}`: the channel buffers the
/// page writes input to and reads output from.
pub fn start_reply(inputs: &Vec<Vec<u32>>, outputs: &Vec<Vec<u32>>) -> (r: Vec<u8>)
    ensures
        r@ == cbor_head(0xa0, 2) + cbor_text_bytes(inputs_key())
            + port_list(inputs@.map_values(|v: Vec<u32>| v@)) + cbor_text_bytes(outputs_key())
            + port_list(outputs@.map_values(|v: Vec<u32>| v@)),
{
    let mut out: Vec<u8> = Vec::new();
    cbor_map_header(&mut out, 2);
    let k_in: [u8; 6] = [0x69, 0x6e, 0x70, 0x75, 0x74, 0x73];
    cbor_text(&mut out, k_in.as_slice());
    cbor_port_list(&mut out, inputs);
    let k_out: [u8; 7] = [0x6f, 0x75, 0x74, 0x70, 0x75, 0x74, 0x73];
    cbor_text(&mut out, k_out.as_slice());
    cbor_port_list(&mut out, outputs);
    out
}


// ---------------------------------------------------------------------------
// Parameter descriptions for the page
// ---------------------------------------------------------------------------

pub open spec fn key_id() -> Seq<u8> { seq![0x69u8, 0x64] }
pub open spec fn key_name() -> Seq<u8> { seq![0x6eu8, 0x61, 0x6d, 0x65] }
pub open spec fn key_min() -> Seq<u8> { seq![0x6du8, 0x69, 0x6e] }
pub open spec fn key_max() -> Seq<u8> { seq![0x6du8, 0x61, 0x78] }
pub open spec fn key_default() -> Seq<u8> { seq![0x64u8, 0x65, 0x66, 0x61, 0x75, 0x6c, 0x74] }
pub open spec fn key_flags() -> Seq<u8> { seq![0x66u8, 0x6c, 0x61, 0x67, 0x73] }

/// `{id, name, min, max, default, flags}` of one parameter.
pub open spec fn param_doc(id: nat, name: Seq<u8>, min: u64, max: u64, default: u64, flags: nat) -> Seq<u8> {
    cbor_head(0xa0, 6) + cbor_text_bytes(key_id()) + cbor_head(0x00, id) + cbor_text_bytes(key_name())
        + cbor_text_bytes(name) + cbor_text_bytes(key_min()) + cbor_f64_bytes(min) + cbor_text_bytes(key_max())
        + cbor_f64_bytes(max) + cbor_text_bytes(key_default()) + cbor_f64_bytes(default)
        + cbor_text_bytes(key_flags()) + cbor_head(0x00, flags)
}

/// What the host reports of a 1320-byte parameter info: its id, its name
/// up to the first NUL of the 256-byte name field, its bounds, default
/// and flags.
pub open spec fn param_doc_of_info(info: Seq<u8>) -> Seq<u8> {
    param_doc(
        le_value(info.subrange(0, 4)),
        before_nul(info.subrange(12, 268)),
        le_value(info.subrange(1296, 1304)) as u64,
        le_value(info.subrange(1304, 1312)) as u64,
        le_value(info.subrange(1312, 1320)) as u64,
        le_value(info.subrange(4, 8)),
    )
}

fn name_before_nul(info: &[u8]) -> (r: Vec<u8>)
    requires
        info@.len() >= 268,
    ensures
        r@ == before_nul(info@.subrange(12, 268)),
{
    let ghost field = info@.subrange(12, 268);
    let mut out: Vec<u8> = Vec::new();
    let mut i: usize = 12;
    while i < 268 && info[i] != 0
        invariant
            12 <= i <= 268,
            info@.len() >= 268,
            field == info@.subrange(12, 268),
            out@ == field.subrange(0, i - 12),
            forall|j: int| 0 <= j < i - 12 ==> field[j] != 0,
        decreases 268 - i,
    {
        out.push(info[i]);
        assert(out@ =~= field.subrange(0, i + 1 - 12));
        i += 1;
    }
    proof {
        lemma_before_nul_prefix(field, i - 12);
    }
    out
}

proof fn lemma_before_nul_prefix(s: Seq<u8>, k: int)
    requires
        0 <= k <= s.len(),
        forall|j: int| 0 <= j < k ==> s[j] != 0,
        k == s.len() || s[k] == 0,
    ensures
        before_nul(s) == s.subrange(0, k),
    decreases k,
{
    if k == 0 {
        assert(s.subrange(0, 0) =~= Seq::<u8>::empty());
    } else {
        lemma_before_nul_prefix(s.drop_first(), k - 1);
        assert(s.subrange(0, k) =~= seq![s[0]] + s.drop_first().subrange(0, k - 1));
    }
}

/// The page's description of one parameter, from the parameter info the
/// plugin filled.
pub fn param_entry(info: &[u8]) -> (r: Vec<u8>)
    requires
        info@.len() >= 1320,
    ensures
        r@ == param_doc_of_info(info@),
{
    proof {
        lemma_pow256_values();
        lemma_le_value_bound(info@.subrange(1296, 1304));
        lemma_le_value_bound(info@.subrange(1304, 1312));
        lemma_le_value_bound(info@.subrange(1312, 1320));
    }
    let id = read_le(info, 0, 4);
    let flags = read_le(info, 4, 4);
    let name = name_before_nul(info);
    let min = read_le(info, 1296, 8);
    let max = read_le(info, 1304, 8);
    let default = read_le(info, 1312, 8);
    let mut out: Vec<u8> = Vec::new();
    cbor_map_header(&mut out, 6);
    cbor_text(&mut out, [0x69u8, 0x64].as_slice());
    cbor_uint_header(&mut out, 0x00, id);
    cbor_text(&mut out, [0x6eu8, 0x61, 0x6d, 0x65].as_slice());
    cbor_text(&mut out, name.as_slice());
    cbor_text(&mut out, [0x6du8, 0x69, 0x6e].as_slice());
    cbor_f64_bits(&mut out, min);
    cbor_text(&mut out, [0x6du8, 0x61, 0x78].as_slice());
    cbor_f64_bits(&mut out, max);
    cbor_text(&mut out, [0x64u8, 0x65, 0x66, 0x61, 0x75, 0x6c, 0x74].as_slice());
    cbor_f64_bits(&mut out, default);
    cbor_text(&mut out, [0x66u8, 0x6c, 0x61, 0x67, 0x73].as_slice());
    cbor_uint_header(&mut out, 0x00, flags);
    assert(out@ =~= param_doc_of_info(info@));
    out
}

proof fn lemma_before_nul_no_nul(s: Seq<u8>)
    ensures
        forall|i: int| 0 <= i < before_nul(s).len() ==> before_nul(s)[i] != 0,
        before_nul(s).len() <= s.len(),
    decreases s.len(),
{
    if s.len() > 0 && s[0] != 0 {
        lemma_before_nul_no_nul(s.drop_first());
        let t = before_nul(s.drop_first());
        assert forall|i: int| 0 <= i < before_nul(s).len() implies before_nul(s)[i] != 0 by {
            if i > 0 {
                assert(before_nul(s)[i] == t[i - 1]);
            }
        }
    }
}

/// The host's description of a parameter gives back what the plugin
/// declared: its id, flags, bounds and default exactly, and its name up to
/// its NUL, cut to the 255 bytes the name field holds.
pub proof fn law_param_doc_of_declared(d: ParamView)
    ensures
        param_doc_of_info(param_info_image(d)) == param_doc(
            d.id as nat,
            before_nul(d.name).take(if before_nul(d.name).len() < 255 { before_nul(d.name).len() as int } else { 255 }),
            d.min_bits,
            d.max_bits,
            d.default_bits,
            d.flags as nat,
        ),
{
    lemma_pow256_values();
    let img = param_info_image(d);
    let name = field_string(d.name, 256);
    let module = field_string(d.module, 1024);
    let s = before_nul(d.name);
    let k = if s.len() < 255 { s.len() as int } else { 255 };
    lemma_before_nul_no_nul(d.name);
    lemma_le_bytes_len(d.id as nat, 4);
    lemma_le_bytes_len(d.flags as nat, 4);
    lemma_le_bytes_len(0, 4);
    lemma_le_bytes_len(d.min_bits as nat, 8);
    lemma_le_bytes_len(d.max_bits as nat, 8);
    lemma_le_bytes_len(d.default_bits as nat, 8);
    assert(name.len() == k + 1);
    assert(module.len() <= 1024);
    assert(img.len() == 1320);
    assert(img.subrange(0, 4) =~= le_bytes(d.id as nat, 4));
    assert(img.subrange(4, 8) =~= le_bytes(d.flags as nat, 4));
    assert(img.subrange(1296, 1304) =~= le_bytes(d.min_bits as nat, 8));
    assert(img.subrange(1304, 1312) =~= le_bytes(d.max_bits as nat, 8));
    assert(img.subrange(1312, 1320) =~= le_bytes(d.default_bits as nat, 8));
    lemma_le_roundtrip(d.id as nat, 4);
    lemma_le_roundtrip(d.flags as nat, 4);
    lemma_le_roundtrip(d.min_bits as nat, 8);
    lemma_le_roundtrip(d.max_bits as nat, 8);
    lemma_le_roundtrip(d.default_bits as nat, 8);
    let field = img.subrange(12, 268);
    assert(field =~= name + zero_bytes((256 - name.len()) as nat));
    assert forall|j: int| 0 <= j < k implies field[j] != 0 by {
        assert(field[j] == s[j]);
    }
    assert(field[k] == 0);
    lemma_before_nul_prefix(field, k);
    assert(field.subrange(0, k) =~= s.take(k));
}


pub open spec fn key_desc() -> Seq<u8> { seq![0x64u8, 0x65, 0x73, 0x63] }
pub open spec fn key_vendor() -> Seq<u8> { seq![0x76u8, 0x65, 0x6e, 0x64, 0x6f, 0x72] }
pub open spec fn key_webview() -> Seq<u8> { seq![0x77u8, 0x65, 0x62, 0x76, 0x69, 0x65, 0x77] }

/// `{desc: {id, name, vendor}, webview}` of a created plugin: the webview
/// URI as text, or null (`0xf6`) for a plugin without one.
pub open spec fn plugin_info_doc(id: Seq<u8>, name: Seq<u8>, vendor: Seq<u8>, webview: Seq<u8>) -> Seq<u8> {
    cbor_head(0xa0, 2) + cbor_text_bytes(key_desc()) + cbor_head(0xa0, 3)
        + cbor_text_bytes(key_id()) + cbor_text_bytes(id)
        + cbor_text_bytes(key_name()) + cbor_text_bytes(name)
        + cbor_text_bytes(key_vendor()) + cbor_text_bytes(vendor)
        + cbor_text_bytes(key_webview())
        + if webview.len() == 0 { seq![0xf6u8] } else { cbor_text_bytes(webview) }
}

/// The page's description of a created plugin.
pub fn plugin_info_reply(id: &[u8], name: &[u8], vendor: &[u8], webview: &[u8]) -> (r: Vec<u8>)
    ensures
        r@ == plugin_info_doc(id@, name@, vendor@, webview@),
{
    let k_desc: [u8; 4] = [0x64, 0x65, 0x73, 0x63];
    let k_id: [u8; 2] = [0x69, 0x64];
    let k_name: [u8; 4] = [0x6e, 0x61, 0x6d, 0x65];
    let k_vendor: [u8; 6] = [0x76, 0x65, 0x6e, 0x64, 0x6f, 0x72];
    let k_webview: [u8; 7] = [0x77, 0x65, 0x62, 0x76, 0x69, 0x65, 0x77];
    assert(k_desc@ =~= key_desc());
    assert(k_id@ =~= key_id());
    assert(k_name@ =~= key_name());
    assert(k_vendor@ =~= key_vendor());
    assert(k_webview@ =~= key_webview());
    let mut out: Vec<u8> = Vec::new();
    cbor_map_header(&mut out, 2);
    cbor_text(&mut out, k_desc.as_slice());
    cbor_map_header(&mut out, 3);
    cbor_text(&mut out, k_id.as_slice());
    cbor_text(&mut out, id);
    cbor_text(&mut out, k_name.as_slice());
    cbor_text(&mut out, name);
    cbor_text(&mut out, k_vendor.as_slice());
    cbor_text(&mut out, vendor);
    cbor_text(&mut out, k_webview.as_slice());
    if webview.len() == 0 {
        out.push(0xf6);
    } else {
        cbor_text(&mut out, webview);
    }
    assert(out@ =~= plugin_info_doc(id@, name@, vendor@, webview@));
    out
}

} // verus!

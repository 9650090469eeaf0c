//! NKSF (Native Kontrol Standard) preset containers: a RIFF `NIKS` form
//! holding four chunks — `NISI` (summary metadata, MessagePack), `NICA`
//! (controller pages, MessagePack), `PLID` (plugin id, MessagePack) and
//! `PCHK` (opaque plugin state, kept verbatim).
//!
//! `nksf_bytes` states what `encode` writes and `spec_parse` what `parse`
//! reads; `law_parse_encode` proves that parsing an encoded preset gives
//! the preset back.
use vstd::prelude::*;
use vstd::utf8::*;
use vstd::string::StringExecFns;
use crate::msgpack::{
    lossy_string,
    Value, SpecValue, MpError, spec_encode, spec_decode, encode as mp_encode, decode_value,
    mp_error_message, mp_error_text, kind_code, kind_name, kind_str, encodable, encodable_list,
    encodable_pairs, str_of_bytes, utf8_lossy, view_list, view_pairs, lemma_view_list,
    lemma_view_pairs, law_decode_encode,
};
use crate::wire::{le_bytes, le_value, push_le, read_le, pow256, lemma_le_roundtrip, lemma_le_bytes_len, lemma_pow256_values, lemma_le_value_bound};
use crate::text::{decimal, signed_decimal, push_decimal, push_signed_decimal, string_of};

verus! {

broadcast use vstd::seq_lib::group_seq_properties;

// ---------------------------------------------------------------------------
// The preset model
// ---------------------------------------------------------------------------

/// NKS PLID — which plugin a preset needs.
#[derive(Debug, Clone, PartialEq, Eq, Default)]
pub struct Plid {
    pub clap_id: Option<String>,
    pub vst3_uid: Option<[i32; 4]>,
    pub vst_magic: Option<i32>,
}

/// NKS NISI summary — the queryable facets.
#[derive(Debug, Clone, PartialEq, Eq, Default)]
pub struct NksMeta {
    pub name: String,
    pub author: String,
    pub vendor: String,
    pub comment: String,
    pub device_type: String,
    pub bankchain: Vec<String>,
    pub types: Vec<Vec<String>>,
    pub modes: Vec<String>,
    pub uuid: String,
}

/// One NICA controller assignment — a knob on a parameter page (8 per page).
#[derive(Debug, Clone, PartialEq, Eq, Default)]
pub struct RemoteControl {
    pub id: String,
    pub name: String,
    pub section: String,
    pub autoname: bool,
    pub vflag: bool,
}

/// A fully-parsed `.nksf`/`.nksfx`.
#[derive(Debug, Clone, PartialEq, Eq, Default)]
pub struct Parsed {
    pub meta: NksMeta,
    pub plugin_id: Plid,
    /// NICA `ni8` parameter pages — each page holds up to 8 controls.
    pub remote_controls: Vec<Vec<RemoteControl>>,
    pub pchk: Vec<u8>,
}

pub struct PlidView {
    pub clap_id: Option<Seq<char>>,
    pub vst3_uid: Option<Seq<i32>>,
    pub vst_magic: Option<i32>,
}

pub struct MetaView {
    pub name: Seq<char>,
    pub author: Seq<char>,
    pub vendor: Seq<char>,
    pub comment: Seq<char>,
    pub device_type: Seq<char>,
    pub bankchain: Seq<Seq<char>>,
    pub types: Seq<Seq<Seq<char>>>,
    pub modes: Seq<Seq<char>>,
    pub uuid: Seq<char>,
}

pub struct ControlView {
    pub id: Seq<char>,
    pub name: Seq<char>,
    pub section: Seq<char>,
    pub autoname: bool,
    pub vflag: bool,
}

pub struct ParsedView {
    pub meta: MetaView,
    pub plugin_id: PlidView,
    pub remote_controls: Seq<Seq<ControlView>>,
    pub pchk: Seq<u8>,
}

pub open spec fn strings_view(v: Seq<String>) -> Seq<Seq<char>> {
    v.map_values(|s: String| s@)
}

impl View for Plid {
    type V = PlidView;

    open spec fn view(&self) -> PlidView {
        PlidView {
            clap_id: match self.clap_id {
                Some(s) => Some(s@),
                None => None,
            },
            vst3_uid: match self.vst3_uid {
                Some(a) => Some(a@),
                None => None,
            },
            vst_magic: self.vst_magic,
        }
    }
}

impl View for NksMeta {
    type V = MetaView;

    open spec fn view(&self) -> MetaView {
        MetaView {
            name: self.name@,
            author: self.author@,
            vendor: self.vendor@,
            comment: self.comment@,
            device_type: self.device_type@,
            bankchain: strings_view(self.bankchain@),
            types: self.types@.map_values(|p: Vec<String>| strings_view(p@)),
            modes: strings_view(self.modes@),
            uuid: self.uuid@,
        }
    }
}

impl View for RemoteControl {
    type V = ControlView;

    open spec fn view(&self) -> ControlView {
        ControlView {
            id: self.id@,
            name: self.name@,
            section: self.section@,
            autoname: self.autoname,
            vflag: self.vflag,
        }
    }
}

pub open spec fn pages_view(pages: Seq<Vec<RemoteControl>>) -> Seq<Seq<ControlView>> {
    pages.map_values(|page: Vec<RemoteControl>| page@.map_values(|c: RemoteControl| c@))
}

impl View for Parsed {
    type V = ParsedView;

    open spec fn view(&self) -> ParsedView {
        ParsedView {
            meta: self.meta@,
            plugin_id: self.plugin_id@,
            remote_controls: pages_view(self.remote_controls@),
            pchk: self.pchk@,
        }
    }
}

/// The metadata a preset without a readable field has: every field empty.
pub open spec fn empty_meta() -> MetaView {
    MetaView {
        name: Seq::empty(),
        author: Seq::empty(),
        vendor: Seq::empty(),
        comment: Seq::empty(),
        device_type: Seq::empty(),
        bankchain: Seq::empty(),
        types: Seq::empty(),
        modes: Seq::empty(),
        uuid: Seq::empty(),
    }
}

pub open spec fn empty_plid() -> PlidView {
    PlidView { clap_id: None, vst3_uid: None, vst_magic: None }
}

pub open spec fn empty_control() -> ControlView {
    ControlView { id: Seq::empty(), name: Seq::empty(), section: Seq::empty(), autoname: false, vflag: false }
}

// ---------------------------------------------------------------------------
// Chunk contents as MessagePack values
// ---------------------------------------------------------------------------

pub open spec fn k_name() -> Seq<char> { "name"@ }
pub open spec fn k_author() -> Seq<char> { "author"@ }
pub open spec fn k_vendor() -> Seq<char> { "vendor"@ }
pub open spec fn k_comment() -> Seq<char> { "comment"@ }
pub open spec fn k_device_type() -> Seq<char> { "deviceType"@ }
pub open spec fn k_bankchain() -> Seq<char> { "bankchain"@ }
pub open spec fn k_types() -> Seq<char> { "types"@ }
pub open spec fn k_modes() -> Seq<char> { "modes"@ }
pub open spec fn k_uuid() -> Seq<char> { "uuid"@ }
pub open spec fn k_clap_id() -> Seq<char> { "CLAP.id"@ }
pub open spec fn k_vst3_uid() -> Seq<char> { "VST3.uid"@ }
pub open spec fn k_vst_magic() -> Seq<char> { "VST.magic"@ }
pub open spec fn k_ni8() -> Seq<char> { "ni8"@ }
pub open spec fn k_id() -> Seq<char> { "id"@ }
pub open spec fn k_section() -> Seq<char> { "section"@ }
pub open spec fn k_autoname() -> Seq<char> { "autoname"@ }
pub open spec fn k_vflag() -> Seq<char> { "vflag"@ }

pub open spec fn str_values(v: Seq<Seq<char>>) -> Seq<SpecValue> {
    v.map_values(|s: Seq<char>| SpecValue::Str(s))
}

/// The NISI map: the nine summary fields, in this order.
pub open spec fn nisi_value(m: MetaView) -> SpecValue {
    SpecValue::Mapping(seq![
        (k_name(), SpecValue::Str(m.name)),
        (k_author(), SpecValue::Str(m.author)),
        (k_vendor(), SpecValue::Str(m.vendor)),
        (k_comment(), SpecValue::Str(m.comment)),
        (k_device_type(), SpecValue::Str(m.device_type)),
        (k_bankchain(), SpecValue::Arr(str_values(m.bankchain))),
        (k_types(), SpecValue::Arr(m.types.map_values(|p: Seq<Seq<char>>| SpecValue::Arr(str_values(p))))),
        (k_modes(), SpecValue::Arr(str_values(m.modes))),
        (k_uuid(), SpecValue::Str(m.uuid)),
    ])
}

/// The PLID map: each id that is present, in this order.
pub open spec fn plid_value(p: PlidView) -> SpecValue {
    let a: Seq<(Seq<char>, SpecValue)> = match p.clap_id {
        Some(id) => seq![(k_clap_id(), SpecValue::Str(id))],
        None => Seq::empty(),
    };
    let b: Seq<(Seq<char>, SpecValue)> = match p.vst3_uid {
        Some(u) => seq![(k_vst3_uid(), SpecValue::Arr(u.map_values(|w: i32| SpecValue::Int(w as i64))))],
        None => Seq::empty(),
    };
    let c: Seq<(Seq<char>, SpecValue)> = match p.vst_magic {
        Some(m) => seq![(k_vst_magic(), SpecValue::Int(m as i64))],
        None => Seq::empty(),
    };
    SpecValue::Mapping(a + b + c)
}

/// One controller as a map.
pub open spec fn control_value(c: ControlView) -> SpecValue {
    SpecValue::Mapping(seq![
        (k_id(), SpecValue::Str(c.id)),
        (k_name(), SpecValue::Str(c.name)),
        (k_section(), SpecValue::Str(c.section)),
        (k_autoname(), SpecValue::Bool(c.autoname)),
        (k_vflag(), SpecValue::Bool(c.vflag)),
    ])
}

pub open spec fn page_value(page: Seq<ControlView>) -> SpecValue {
    SpecValue::Arr(page.map_values(|c: ControlView| control_value(c)))
}

/// The NICA map: empty without pages, else `ni8` holding the pages.
pub open spec fn nica_value(pages: Seq<Seq<ControlView>>) -> SpecValue {
    if pages.len() == 0 {
        SpecValue::Mapping(Seq::empty())
    } else {
        SpecValue::Mapping(seq![(k_ni8(), SpecValue::Arr(pages.map_values(|pg: Seq<ControlView>| page_value(pg))))])
    }
}

// ---------------------------------------------------------------------------
// The container
// ---------------------------------------------------------------------------

pub open spec fn riff_tag() -> Seq<u8> { seq![0x52u8, 0x49, 0x46, 0x46] }
pub open spec fn niks_tag() -> Seq<u8> { seq![0x4eu8, 0x49, 0x4b, 0x53] }
pub open spec fn nisi_tag() -> Seq<u8> { seq![0x4eu8, 0x49, 0x53, 0x49] }
pub open spec fn nica_tag() -> Seq<u8> { seq![0x4eu8, 0x49, 0x43, 0x41] }
pub open spec fn plid_tag() -> Seq<u8> { seq![0x50u8, 0x4c, 0x49, 0x44] }
pub open spec fn pchk_tag() -> Seq<u8> { seq![0x50u8, 0x43, 0x48, 0x4b] }

/// A chunk body with the 4-byte little-endian version (1) in front.
pub open spec fn versioned(body: Seq<u8>) -> Seq<u8> {
    le_bytes(1, 4) + body
}

/// A RIFF chunk: id, 32-bit little-endian size, body, and a pad byte after
/// an odd-sized body.
pub open spec fn chunk_bytes(id: Seq<u8>, body: Seq<u8>) -> Seq<u8> {
    id + le_bytes(body.len() % 0x1_0000_0000, 4) + body + (if body.len() % 2 == 1 {
        seq![0u8]
    } else {
        Seq::empty()
    })
}

/// The four chunk bodies of a preset, in file order.
pub open spec fn nisi_body(p: ParsedView) -> Seq<u8> { versioned(spec_encode(nisi_value(p.meta))) }
pub open spec fn nica_body(p: ParsedView) -> Seq<u8> { versioned(spec_encode(nica_value(p.remote_controls))) }
pub open spec fn plid_body(p: ParsedView) -> Seq<u8> { versioned(spec_encode(plid_value(p.plugin_id))) }

pub open spec fn inner_bytes(p: ParsedView) -> Seq<u8> {
    chunk_bytes(nisi_tag(), nisi_body(p)) + chunk_bytes(nica_tag(), nica_body(p))
        + chunk_bytes(plid_tag(), plid_body(p)) + chunk_bytes(pchk_tag(), p.pchk)
}

/// The bytes a preset is written as: `RIFF`, the size of what follows it
/// (mod 2^32), `NIKS`, then the NISI, NICA, PLID and PCHK chunks.
pub open spec fn nksf_bytes(p: ParsedView) -> Seq<u8> {
    let inner = inner_bytes(p);
    riff_tag() + le_bytes((4 + inner.len()) % 0x1_0000_0000, 4) + niks_tag() + inner
}


// ---------------------------------------------------------------------------
// Encoding
// ---------------------------------------------------------------------------

fn key(lit: &str) -> (r: String)
    ensures
        r@ == lit@,
{
    lit.to_owned()
}

fn str_list_value(v: &Vec<String>) -> (r: Value)
    ensures
        r@ == SpecValue::Arr(str_values(strings_view(v@))),
{
    let mut a: Vec<Value> = Vec::new();
    let mut i: usize = 0;
    while i < v.len()
        invariant
            i <= v@.len(),
            a@.len() == i,
            forall|j: int| 0 <= j < i ==> #[trigger] a@[j]@ == SpecValue::Str(v@[j]@),
        decreases v.len() - i,
    {
        a.push(Value::Str(v[i].clone()));
        i = i + 1;
    }
    proof {
        lemma_view_list(a@);
        assert forall|j: int| 0 <= j < a@.len() implies #[trigger] view_list(a@)[j] == str_values(strings_view(v@))[j] by {
            assert(a@[j]@ == SpecValue::Str(v@[j]@));
        }
        assert(view_list(a@) =~= str_values(strings_view(v@)));
    }
    Value::Arr(a)
}

fn types_value(t: &Vec<Vec<String>>) -> (r: Value)
    ensures
        r@ == SpecValue::Arr(
            t@.map_values(|p: Vec<String>| strings_view(p@)).map_values(
                |p: Seq<Seq<char>>| SpecValue::Arr(str_values(p)),
            ),
        ),
{
    let mut a: Vec<Value> = Vec::new();
    let mut i: usize = 0;
    while i < t.len()
        invariant
            i <= t@.len(),
            a@.len() == i,
            forall|j: int| 0 <= j < i ==> #[trigger] a@[j]@ == SpecValue::Arr(str_values(strings_view(t@[j]@))),
        decreases t.len() - i,
    {
        a.push(str_list_value(&t[i]));
        i = i + 1;
    }
    proof {
        lemma_view_list(a@);
        let tv = t@.map_values(|p: Vec<String>| strings_view(p@)).map_values(
            |p: Seq<Seq<char>>| SpecValue::Arr(str_values(p)),
        );
        assert forall|j: int| 0 <= j < a@.len() implies #[trigger] view_list(a@)[j] == tv[j] by {
            assert(a@[j]@ == SpecValue::Arr(str_values(strings_view(t@[j]@))));
        }
        assert(view_list(a@) =~= tv);
    }
    Value::Arr(a)
}

fn encode_nisi(m: &NksMeta) -> (r: Vec<u8>)
    ensures
        r@ == spec_encode(nisi_value(m@)),
{
    let mut p: Vec<(String, Value)> = Vec::new();
    p.push((key("name"), Value::Str(m.name.clone())));
    p.push((key("author"), Value::Str(m.author.clone())));
    p.push((key("vendor"), Value::Str(m.vendor.clone())));
    p.push((key("comment"), Value::Str(m.comment.clone())));
    p.push((key("deviceType"), Value::Str(m.device_type.clone())));
    p.push((key("bankchain"), str_list_value(&m.bankchain)));
    p.push((key("types"), types_value(&m.types)));
    p.push((key("modes"), str_list_value(&m.modes)));
    p.push((key("uuid"), Value::Str(m.uuid.clone())));
    let v = Value::Mapping(p);
    proof {
        lemma_view_pairs(p@);
        assert(view_pairs(p@) =~= nisi_value(m@)->Mapping_0);
    }
    mp_encode(&v)
}

fn encode_plid(pl: &Plid) -> (r: Vec<u8>)
    ensures
        r@ == spec_encode(plid_value(pl@)),
{
    let mut p: Vec<(String, Value)> = Vec::new();
    let ghost pv = pl@;
    let ghost a: Seq<(Seq<char>, SpecValue)> = match pv.clap_id {
        Some(id) => seq![(k_clap_id(), SpecValue::Str(id))],
        None => Seq::empty(),
    };
    let ghost b: Seq<(Seq<char>, SpecValue)> = match pv.vst3_uid {
        Some(u) => seq![(k_vst3_uid(), SpecValue::Arr(u.map_values(|w: i32| SpecValue::Int(w as i64))))],
        None => Seq::empty(),
    };
    if let Some(id) = &pl.clap_id {
        p.push((key("CLAP.id"), Value::Str(id.clone())));
    }
    proof {
        lemma_view_pairs(p@);
        assert(view_pairs(p@) =~= a);
    }
    if let Some(uid) = &pl.vst3_uid {
        let mut words: Vec<Value> = Vec::new();
        let mut i: usize = 0;
        while i < 4
            invariant
                i <= 4,
                words@.len() == i,
                forall|j: int| 0 <= j < i ==> #[trigger] words@[j]@ == SpecValue::Int(uid@[j] as i64),
            decreases 4 - i,
        {
            words.push(Value::Int(uid[i] as i64));
            i = i + 1;
        }
        proof {
            lemma_view_list(words@);
            let wv = uid@.map_values(|w: i32| SpecValue::Int(w as i64));
            assert forall|j: int| 0 <= j < words@.len() implies #[trigger] view_list(words@)[j] == wv[j] by {
                assert(words@[j]@ == SpecValue::Int(uid@[j] as i64));
            }
            assert(view_list(words@) =~= wv);
        }
        p.push((key("VST3.uid"), Value::Arr(words)));
    }
    proof {
        lemma_view_pairs(p@);
        assert(view_pairs(p@) =~= a + b);
    }
    if let Some(magic) = pl.vst_magic {
        p.push((key("VST.magic"), Value::Int(magic as i64)));
    }
    let v = Value::Mapping(p);
    proof {
        lemma_view_pairs(p@);
        assert(view_pairs(p@) =~= plid_value(pl@)->Mapping_0);
    }
    mp_encode(&v)
}

fn control_to_value(c: &RemoteControl) -> (r: Value)
    ensures
        r@ == control_value(c@),
{
    let mut p: Vec<(String, Value)> = Vec::new();
    p.push((key("id"), Value::Str(c.id.clone())));
    p.push((key("name"), Value::Str(c.name.clone())));
    p.push((key("section"), Value::Str(c.section.clone())));
    p.push((key("autoname"), Value::Bool(c.autoname)));
    p.push((key("vflag"), Value::Bool(c.vflag)));
    proof {
        lemma_view_pairs(p@);
        assert(view_pairs(p@) =~= control_value(c@)->Mapping_0);
    }
    Value::Mapping(p)
}

fn encode_nica(pages: &Vec<Vec<RemoteControl>>) -> (r: Vec<u8>)
    ensures
        r@ == spec_encode(nica_value(pages_view(pages@))),
{
    if pages.len() == 0 {
        let v = Value::Mapping(Vec::new());
        proof {
            assert(view_pairs(Seq::<(String, Value)>::empty()) =~= Seq::<(Seq<char>, SpecValue)>::empty());
        }
        return mp_encode(&v);
    }
    let mut ni8: Vec<Value> = Vec::new();
    let mut i: usize = 0;
    while i < pages.len()
        invariant
            i <= pages@.len(),
            ni8@.len() == i,
            forall|j: int| 0 <= j < i ==> #[trigger] ni8@[j]@ == page_value(pages_view(pages@)[j]),
        decreases pages.len() - i,
    {
        let page = &pages[i];
        let mut a: Vec<Value> = Vec::new();
        let mut k: usize = 0;
        while k < page.len()
            invariant
                k <= page@.len(),
                a@.len() == k,
                forall|j: int| 0 <= j < k ==> #[trigger] a@[j]@ == control_value(page@[j]@),
            decreases page.len() - k,
        {
            a.push(control_to_value(&page[k]));
            k = k + 1;
        }
        proof {
            lemma_view_list(a@);
            let pv = pages_view(pages@)[i as int].map_values(|c: ControlView| control_value(c));
            assert(pages_view(pages@)[i as int] == page@.map_values(|c: RemoteControl| c@));
            assert forall|j: int| 0 <= j < a@.len() implies #[trigger] view_list(a@)[j] == pv[j] by {
                assert(a@[j]@ == control_value(page@[j]@));
            }
            assert(view_list(a@) =~= pv);
        }
        ni8.push(Value::Arr(a));
        i = i + 1;
    }
    let mut p: Vec<(String, Value)> = Vec::new();
    proof {
        lemma_view_list(ni8@);
        let nv = pages_view(pages@).map_values(|pg: Seq<ControlView>| page_value(pg));
        assert forall|j: int| 0 <= j < ni8@.len() implies #[trigger] view_list(ni8@)[j] == nv[j] by {
            assert(ni8@[j]@ == page_value(pages_view(pages@)[j]));
        }
        assert(view_list(ni8@) =~= nv);
    }
    p.push((key("ni8"), Value::Arr(ni8)));
    proof {
        lemma_view_pairs(p@);
        assert(view_pairs(p@) =~= nica_value(pages_view(pages@))->Mapping_0);
    }
    mp_encode(&Value::Mapping(p))
}

fn versioned_body(body: Vec<u8>) -> (r: Vec<u8>)
    ensures
        r@ == versioned(body@),
{
    let mut v: Vec<u8> = Vec::new();
    push_le(&mut v, 1, 4);
    let mut body = body;
    let ghost b0 = body@;
    v.append(&mut body);
    assert(v@ =~= versioned(b0));
    v
}

fn put_chunk(out: &mut Vec<u8>, id: [u8; 4], body: &[u8])
    ensures
        final(out)@ == old(out)@ + chunk_bytes(id@, body@),
{
    let ghost start = out@;
    out.extend_from_slice(id.as_slice());
    push_le(out, (body.len() as u64) % 0x1_0000_0000, 4);
    out.extend_from_slice(body);
    if body.len() % 2 == 1 {
        out.push(0);
    }
    assert(out@ =~= start + chunk_bytes(id@, body@));
}

fn frame(inner: &Vec<u8>) -> (r: Vec<u8>)
    ensures
        r@ == riff_tag() + le_bytes((4 + inner@.len()) % 0x1_0000_0000, 4) + niks_tag() + inner@,
{
    let mut out: Vec<u8> = Vec::new();
    out.extend_from_slice([0x52u8, 0x49, 0x46, 0x46].as_slice());
    assert(out@ =~= riff_tag());
    push_le(&mut out, ((inner.len() as u64 % 0x1_0000_0000) + 4) % 0x1_0000_0000, 4);
    let ghost o2 = out@;
    out.extend_from_slice([0x4eu8, 0x49, 0x4b, 0x53].as_slice());
    assert(out@ =~= o2 + niks_tag());
    out.extend_from_slice(inner.as_slice());
    assert(((inner@.len() % 0x1_0000_0000) + 4) % 0x1_0000_0000 == (4 + inner@.len()) % 0x1_0000_0000);
    assert(out@ =~= riff_tag() + le_bytes((4 + inner@.len()) % 0x1_0000_0000, 4) + niks_tag() + inner@);
    out
}

/// Encode a structured value into NKSF container bytes. Always succeeds.
pub fn encode(value: &Parsed) -> (r: Result<Vec<u8>, String>)
    ensures
        r matches Ok(b) && b@ == nksf_bytes(value@),
{
    let nisi = versioned_body(encode_nisi(&value.meta));
    let nica = versioned_body(encode_nica(&value.remote_controls));
    let plid = versioned_body(encode_plid(&value.plugin_id));

    let mut inner: Vec<u8> = Vec::new();
    put_chunk(&mut inner, [0x4e, 0x49, 0x53, 0x49], nisi.as_slice());
    put_chunk(&mut inner, [0x4e, 0x49, 0x43, 0x41], nica.as_slice());
    put_chunk(&mut inner, [0x50, 0x4c, 0x49, 0x44], plid.as_slice());
    put_chunk(&mut inner, [0x50, 0x43, 0x48, 0x4b], value.pchk.as_slice());
    assert(inner@ =~= inner_bytes(value@));
    let out = frame(&inner);
    Ok(out)
}


// ---------------------------------------------------------------------------
// Reading: errors
// ---------------------------------------------------------------------------

/// Why bytes do not parse as a preset.
#[derive(Clone, Copy, Debug, PartialEq, Eq)]
pub enum NksfError {
    /// Fewer than 12 bytes.
    TooShort,
    /// The first four bytes are not `RIFF`.
    MissingRiff,
    /// The form type is not `NIKS`.
    NotNiks,
    /// A chunk (id bytes, claimed size) whose body runs past the end.
    ChunkPastEnd(u8, u8, u8, u8, u32),
    /// No `NISI` chunk.
    MissingNisi,
    /// A MessagePack chunk shorter than its 4-byte version prefix.
    ShortVersion,
    /// The MessagePack of a chunk does not decode.
    Msgpack(MpError),
    /// A map was due; the number is the kind found.
    ExpectedMap(u8),
    /// An array was due; the number is the kind found.
    ExpectedArray(u8),
    /// A string was due; the number is the kind found.
    ExpectedString(u8),
    /// A bool was due; the number is the kind found.
    ExpectedBool(u8),
    /// An integer was due; the number is the kind found.
    ExpectedInteger(u8),
    /// An integer outside the `i32` range.
    IntOutOfRange(i64),
    /// A `VST3.uid` without exactly four words.
    Vst3Words,
}

/// What `format!("{:?}", s)` prints for a string: the string quoted, with
/// its special characters escaped.
pub uninterp spec fn debug_quoted(s: Seq<char>) -> Seq<char>;

/// The text of a parse error.
pub open spec fn nksf_error_message(e: NksfError) -> Seq<char> {
    match e {
        NksfError::TooShort => "too short to be a RIFF file"@,
        NksfError::MissingRiff => "missing RIFF magic"@,
        NksfError::NotNiks => "not an NKSF file (form type != NIKS)"@,
        NksfError::ChunkPastEnd(a, b, c, d, size) => "chunk "@ + debug_quoted(str_of_bytes(seq![a, b, c, d]))
            + " claims "@ + decimal(size as nat) + " bytes past end of file"@,
        NksfError::MissingNisi => "missing NISI chunk"@,
        NksfError::ShortVersion => "chunk shorter than its 4-byte version prefix"@,
        NksfError::Msgpack(m) => mp_error_message(m),
        NksfError::ExpectedMap(k) => "expected a map, got "@ + kind_name(k),
        NksfError::ExpectedArray(k) => "expected an array, got "@ + kind_name(k),
        NksfError::ExpectedString(k) => "expected a string, got "@ + kind_name(k),
        NksfError::ExpectedBool(k) => "expected a bool, got "@ + kind_name(k),
        NksfError::ExpectedInteger(k) => "expected an integer, got "@ + kind_name(k),
        NksfError::IntOutOfRange(n) => "integer "@ + signed_decimal(n as int) + " out of i32 range"@,
        NksfError::Vst3Words => "VST3.uid must have exactly 4 words"@,
    }
}

// ---------------------------------------------------------------------------
// Reading: from MessagePack values to fields
// ---------------------------------------------------------------------------

/// Steps through `s` from the front, stopping at the first error.
pub open spec fn fold_res<A, M>(s: Seq<A>, init: M, f: spec_fn(M, A) -> Result<M, NksfError>) -> Result<M, NksfError>
    decreases s.len(),
{
    if s.len() == 0 {
        Ok(init)
    } else {
        match fold_res(s.drop_last(), init, f) {
            Ok(m) => f(m, s.last()),
            Err(e) => Err(e),
        }
    }
}

pub proof fn lemma_fold_step<A, M>(s: Seq<A>, i: int, init: M, f: spec_fn(M, A) -> Result<M, NksfError>)
    requires
        0 <= i < s.len(),
    ensures
        fold_res(s.take(i + 1), init, f) == match fold_res(s.take(i), init, f) {
            Ok(m) => f(m, s[i]),
            Err(e) => Err(e),
        },
{
    assert(s.take(i + 1).drop_last() =~= s.take(i));
}

pub proof fn lemma_fold_err<A, M>(s: Seq<A>, i: int, init: M, f: spec_fn(M, A) -> Result<M, NksfError>)
    requires
        0 <= i <= s.len(),
        fold_res(s.take(i), init, f) is Err,
    ensures
        fold_res(s, init, f) == fold_res(s.take(i), init, f),
    decreases s.len() - i,
{
    if i < s.len() {
        lemma_fold_step(s, i, init, f);
        lemma_fold_err(s, i + 1, init, f);
    } else {
        assert(s.take(i) =~= s);
    }
}

pub proof fn lemma_fold_all<A, M>(s: Seq<A>, init: M, f: spec_fn(M, A) -> Result<M, NksfError>)
    ensures
        fold_res(s.take(s.len() as int), init, f) == fold_res(s, init, f),
{
    assert(s.take(s.len() as int) =~= s);
}

pub open spec fn spec_as_map(v: SpecValue) -> Result<Seq<(Seq<char>, SpecValue)>, NksfError> {
    match v {
        SpecValue::Mapping(p) => Ok(p),
        other => Err(NksfError::ExpectedMap(kind_code(other))),
    }
}

pub open spec fn spec_as_arr(v: SpecValue) -> Result<Seq<SpecValue>, NksfError> {
    match v {
        SpecValue::Arr(a) => Ok(a),
        other => Err(NksfError::ExpectedArray(kind_code(other))),
    }
}

/// A string field; nil reads as the empty string.
pub open spec fn spec_as_str(v: SpecValue) -> Result<Seq<char>, NksfError> {
    match v {
        SpecValue::Str(s) => Ok(s),
        SpecValue::Nil => Ok(Seq::empty()),
        other => Err(NksfError::ExpectedString(kind_code(other))),
    }
}

pub open spec fn spec_as_bool(v: SpecValue) -> Result<bool, NksfError> {
    match v {
        SpecValue::Bool(b) => Ok(b),
        other => Err(NksfError::ExpectedBool(kind_code(other))),
    }
}

pub open spec fn spec_as_i32(v: SpecValue) -> Result<i32, NksfError> {
    match v {
        SpecValue::Int(n) => if i32::MIN <= n <= i32::MAX {
            Ok(n as i32)
        } else {
            Err(NksfError::IntOutOfRange(n))
        },
        other => Err(NksfError::ExpectedInteger(kind_code(other))),
    }
}

pub open spec fn push_str_step() -> spec_fn(Seq<Seq<char>>, SpecValue) -> Result<Seq<Seq<char>>, NksfError> {
    |acc: Seq<Seq<char>>, v: SpecValue| match spec_as_str(v) {
        Ok(x) => Ok(acc.push(x)),
        Err(e) => Err(e),
    }
}

/// A list of strings.
pub open spec fn spec_as_str_list(v: SpecValue) -> Result<Seq<Seq<char>>, NksfError> {
    match spec_as_arr(v) {
        Ok(items) => fold_res(items, Seq::empty(), push_str_step()),
        Err(e) => Err(e),
    }
}

pub open spec fn push_str_list_step() -> spec_fn(Seq<Seq<Seq<char>>>, SpecValue) -> Result<Seq<Seq<Seq<char>>>, NksfError> {
    |acc: Seq<Seq<Seq<char>>>, v: SpecValue| match spec_as_str_list(v) {
        Ok(x) => Ok(acc.push(x)),
        Err(e) => Err(e),
    }
}

pub open spec fn push_i32_step() -> spec_fn(Seq<i32>, SpecValue) -> Result<Seq<i32>, NksfError> {
    |acc: Seq<i32>, v: SpecValue| match spec_as_i32(v) {
        Ok(x) => Ok(acc.push(x)),
        Err(e) => Err(e),
    }
}

/// One NISI entry applied to the metadata read so far; unknown keys are
/// ignored.
pub open spec fn nisi_step() -> spec_fn(MetaView, (Seq<char>, SpecValue)) -> Result<MetaView, NksfError> {
    |m: MetaView, kv: (Seq<char>, SpecValue)| {
        let k = kv.0;
        let v = kv.1;
        if k == k_name() {
            match spec_as_str(v) { Ok(x) => Ok(MetaView { name: x, ..m }), Err(e) => Err(e) }
        } else if k == k_author() {
            match spec_as_str(v) { Ok(x) => Ok(MetaView { author: x, ..m }), Err(e) => Err(e) }
        } else if k == k_vendor() {
            match spec_as_str(v) { Ok(x) => Ok(MetaView { vendor: x, ..m }), Err(e) => Err(e) }
        } else if k == k_comment() {
            match spec_as_str(v) { Ok(x) => Ok(MetaView { comment: x, ..m }), Err(e) => Err(e) }
        } else if k == k_device_type() {
            match spec_as_str(v) { Ok(x) => Ok(MetaView { device_type: x, ..m }), Err(e) => Err(e) }
        } else if k == k_uuid() {
            match spec_as_str(v) { Ok(x) => Ok(MetaView { uuid: x, ..m }), Err(e) => Err(e) }
        } else if k == k_bankchain() {
            match spec_as_str_list(v) { Ok(x) => Ok(MetaView { bankchain: x, ..m }), Err(e) => Err(e) }
        } else if k == k_modes() {
            match spec_as_str_list(v) { Ok(x) => Ok(MetaView { modes: x, ..m }), Err(e) => Err(e) }
        } else if k == k_types() {
            match spec_as_arr(v) {
                Ok(items) => match fold_res(items, Seq::empty(), push_str_list_step()) {
                    Ok(x) => Ok(MetaView { types: x, ..m }),
                    Err(e) => Err(e),
                },
                Err(e) => Err(e),
            }
        } else {
            Ok(m)
        }
    }
}

/// One PLID entry applied to the ids read so far.
pub open spec fn plid_step() -> spec_fn(PlidView, (Seq<char>, SpecValue)) -> Result<PlidView, NksfError> {
    |p: PlidView, kv: (Seq<char>, SpecValue)| {
        let k = kv.0;
        let v = kv.1;
        if k == k_clap_id() {
            match spec_as_str(v) { Ok(x) => Ok(PlidView { clap_id: Some(x), ..p }), Err(e) => Err(e) }
        } else if k == k_vst_magic() {
            match spec_as_i32(v) { Ok(x) => Ok(PlidView { vst_magic: Some(x), ..p }), Err(e) => Err(e) }
        } else if k == k_vst3_uid() {
            match spec_as_arr(v) {
                Ok(items) => match fold_res(items, Seq::empty(), push_i32_step()) {
                    Ok(ws) => if ws.len() == 4 {
                        Ok(PlidView { vst3_uid: Some(ws), ..p })
                    } else {
                        Err(NksfError::Vst3Words)
                    },
                    Err(e) => Err(e),
                },
                Err(e) => Err(e),
            }
        } else {
            Ok(p)
        }
    }
}

/// One controller entry applied to the controller read so far.
pub open spec fn control_step() -> spec_fn(ControlView, (Seq<char>, SpecValue)) -> Result<ControlView, NksfError> {
    |c: ControlView, kv: (Seq<char>, SpecValue)| {
        let k = kv.0;
        let v = kv.1;
        if k == k_id() {
            match spec_as_str(v) { Ok(x) => Ok(ControlView { id: x, ..c }), Err(e) => Err(e) }
        } else if k == k_name() {
            match spec_as_str(v) { Ok(x) => Ok(ControlView { name: x, ..c }), Err(e) => Err(e) }
        } else if k == k_section() {
            match spec_as_str(v) { Ok(x) => Ok(ControlView { section: x, ..c }), Err(e) => Err(e) }
        } else if k == k_autoname() {
            match spec_as_bool(v) { Ok(x) => Ok(ControlView { autoname: x, ..c }), Err(e) => Err(e) }
        } else if k == k_vflag() {
            match spec_as_bool(v) { Ok(x) => Ok(ControlView { vflag: x, ..c }), Err(e) => Err(e) }
        } else {
            Ok(c)
        }
    }
}

pub open spec fn spec_decode_control(v: SpecValue) -> Result<ControlView, NksfError> {
    match spec_as_map(v) {
        Ok(p) => fold_res(p, empty_control(), control_step()),
        Err(e) => Err(e),
    }
}

pub open spec fn push_control_step() -> spec_fn(Seq<ControlView>, SpecValue) -> Result<Seq<ControlView>, NksfError> {
    |acc: Seq<ControlView>, v: SpecValue| match spec_decode_control(v) {
        Ok(c) => Ok(acc.push(c)),
        Err(e) => Err(e),
    }
}

pub open spec fn push_page_step() -> spec_fn(Seq<Seq<ControlView>>, SpecValue) -> Result<Seq<Seq<ControlView>>, NksfError> {
    |acc: Seq<Seq<ControlView>>, v: SpecValue| match spec_as_arr(v) {
        Ok(items) => match fold_res(items, Seq::empty(), push_control_step()) {
            Ok(page) => Ok(acc.push(page)),
            Err(e) => Err(e),
        },
        Err(e) => Err(e),
    }
}

/// The value of the first entry with key `k`.
pub open spec fn first_with_key(p: Seq<(Seq<char>, SpecValue)>, k: Seq<char>) -> Option<SpecValue>
    decreases p.len(),
{
    if p.len() == 0 {
        None
    } else if p[0].0 == k {
        Some(p[0].1)
    } else {
        first_with_key(p.drop_first(), k)
    }
}

// ---------------------------------------------------------------------------
// Reading: chunks
// ---------------------------------------------------------------------------

/// The map a MessagePack chunk body holds, after its version prefix.
pub open spec fn spec_chunk_map(body: Seq<u8>) -> Result<Seq<(Seq<char>, SpecValue)>, NksfError> {
    if body.len() < 4 {
        Err(NksfError::ShortVersion)
    } else {
        match spec_decode(body.skip(4)) {
            Ok(v) => spec_as_map(v),
            Err(e) => Err(NksfError::Msgpack(e)),
        }
    }
}

pub open spec fn spec_decode_nisi(body: Seq<u8>) -> Result<MetaView, NksfError> {
    match spec_chunk_map(body) {
        Ok(p) => fold_res(p, empty_meta(), nisi_step()),
        Err(e) => Err(e),
    }
}

pub open spec fn spec_decode_plid(body: Seq<u8>) -> Result<PlidView, NksfError> {
    match spec_chunk_map(body) {
        Ok(p) => fold_res(p, empty_plid(), plid_step()),
        Err(e) => Err(e),
    }
}

pub open spec fn spec_decode_nica(body: Seq<u8>) -> Result<Seq<Seq<ControlView>>, NksfError> {
    match spec_chunk_map(body) {
        Ok(p) => match first_with_key(p, k_ni8()) {
            None => Ok(Seq::empty()),
            Some(ni8) => match spec_as_arr(ni8) {
                Ok(pages) => fold_res(pages, Seq::empty(), push_page_step()),
                Err(e) => Err(e),
            },
        },
        Err(e) => Err(e),
    }
}

/// The chunks (id, body) of a RIFF form body, in order. A chunk whose body
/// runs past the end is an error; a missing final pad byte is not; fewer
/// than 8 trailing bytes are ignored.
pub open spec fn walk(data: Seq<u8>) -> Result<Seq<(Seq<u8>, Seq<u8>)>, NksfError>
    decreases data.len(),
{
    if data.len() < 8 {
        Ok(Seq::empty())
    } else {
        let size = le_value(data.subrange(4, 8));
        if 8 + size > data.len() {
            Err(NksfError::ChunkPastEnd(data[0], data[1], data[2], data[3], size as u32))
        } else {
            let c = (data.subrange(0, 4), data.subrange(8, (8 + size) as int));
            let adv = 8 + size + size % 2;
            if adv > data.len() {
                Ok(seq![c])
            } else {
                match walk(data.skip(adv as int)) {
                    Ok(cs) => Ok(seq![c] + cs),
                    Err(e) => Err(e),
                }
            }
        }
    }
}

/// The body of the first chunk with id `id`.
pub open spec fn find_chunk(cs: Seq<(Seq<u8>, Seq<u8>)>, id: Seq<u8>) -> Option<Seq<u8>>
    decreases cs.len(),
{
    if cs.len() == 0 {
        None
    } else if cs[0].0 == id {
        Some(cs[0].1)
    } else {
        find_chunk(cs.drop_first(), id)
    }
}

/// The PLID of a preset: decoded from the first PLID chunk, or empty.
pub open spec fn spec_opt_plid(cs: Seq<(Seq<u8>, Seq<u8>)>) -> Result<PlidView, NksfError> {
    match find_chunk(cs, plid_tag()) {
        Some(body) => spec_decode_plid(body),
        None => Ok(empty_plid()),
    }
}

/// The controller pages of a preset: decoded from the first NICA chunk, or none.
pub open spec fn spec_opt_nica(cs: Seq<(Seq<u8>, Seq<u8>)>) -> Result<Seq<Seq<ControlView>>, NksfError> {
    match find_chunk(cs, nica_tag()) {
        Some(body) => spec_decode_nica(body),
        None => Ok(Seq::empty()),
    }
}

/// The plugin state of a preset: the body of the first PCHK chunk, or empty.
pub open spec fn spec_opt_pchk(cs: Seq<(Seq<u8>, Seq<u8>)>) -> Seq<u8> {
    match find_chunk(cs, pchk_tag()) {
        Some(body) => body,
        None => Seq::empty(),
    }
}

/// A preset from its chunks: NISI is required and read first, then PLID,
/// then NICA.
pub open spec fn spec_parse_chunks(cs: Seq<(Seq<u8>, Seq<u8>)>) -> Result<ParsedView, NksfError> {
    match find_chunk(cs, nisi_tag()) {
        None => Err(NksfError::MissingNisi),
        Some(nisi) => match spec_decode_nisi(nisi) {
            Err(e) => Err(e),
            Ok(meta) => match spec_opt_plid(cs) {
                Err(e) => Err(e),
                Ok(plugin_id) => match spec_opt_nica(cs) {
                    Err(e) => Err(e),
                    Ok(remote_controls) => Ok(ParsedView {
                        meta,
                        plugin_id,
                        remote_controls,
                        pchk: spec_opt_pchk(cs),
                    }),
                },
            },
        },
    }
}

/// What bytes parse as: a `RIFF`/`NIKS` header, then the chunks. NISI is
/// required; PLID, NICA and PCHK default to empty when absent. The RIFF
/// size field is not checked.
pub open spec fn spec_parse(b: Seq<u8>) -> Result<ParsedView, NksfError> {
    if b.len() < 12 {
        Err(NksfError::TooShort)
    } else if b.subrange(0, 4) != riff_tag() {
        Err(NksfError::MissingRiff)
    } else if b.subrange(8, 12) != niks_tag() {
        Err(NksfError::NotNiks)
    } else {
        match walk(b.skip(12)) {
            Err(e) => Err(e),
            Ok(cs) => spec_parse_chunks(cs),
        }
    }
}


// ---------------------------------------------------------------------------
// Reading: executable
// ---------------------------------------------------------------------------

/// Whether a string holds exactly the characters of a literal, compared
/// through their UTF-8 bytes.
fn key_is(k: &String, lit: &str) -> (r: bool)
    ensures
        r == (k@ == lit@),
{
    broadcast use encode_utf8_decode_utf8;

    let a = k.as_str().as_bytes();
    let b = lit.as_bytes();
    if a.len() != b.len() {
        proof {
            if k@ == lit@ {
                assert(a@ == b@);
            }
        }
        return false;
    }
    let mut i: usize = 0;
    while i < a.len()
        invariant
            a.len() == b.len(),
            i <= a@.len(),
            a@ == encode_utf8(k@),
            b@ == encode_utf8(lit@),
            forall|j: int| 0 <= j < i ==> a@[j] == b@[j],
        decreases a.len() - i,
    {
        if a[i] != b[i] {
            proof {
                if k@ == lit@ {
                    assert(a@[i as int] == b@[i as int]);
                }
            }
            return false;
        }
        i = i + 1;
    }
    proof {
        assert(a@ =~= b@);
        assert(decode_utf8(encode_utf8(k@)) == k@);
        assert(decode_utf8(encode_utf8(lit@)) == lit@);
    }
    true
}

fn as_map(v: &Value) -> (r: Result<&Vec<(String, Value)>, NksfError>)
    ensures
        match r {
            Ok(p) => spec_as_map(v@) == Ok::<_, NksfError>(view_pairs(p@)),
            Err(e) => spec_as_map(v@) == Err::<Seq<(Seq<char>, SpecValue)>, NksfError>(e),
        },
{
    match v {
        Value::Mapping(p) => Ok(p),
        other => Err(NksfError::ExpectedMap(other.kind_code())),
    }
}

fn as_arr(v: &Value) -> (r: Result<&Vec<Value>, NksfError>)
    ensures
        match r {
            Ok(a) => spec_as_arr(v@) == Ok::<_, NksfError>(view_list(a@)),
            Err(e) => spec_as_arr(v@) == Err::<Seq<SpecValue>, NksfError>(e),
        },
{
    match v {
        Value::Arr(a) => Ok(a),
        other => Err(NksfError::ExpectedArray(other.kind_code())),
    }
}

fn as_str(v: &Value) -> (r: Result<String, NksfError>)
    ensures
        match r {
            Ok(s) => spec_as_str(v@) == Ok::<_, NksfError>(s@),
            Err(e) => spec_as_str(v@) == Err::<Seq<char>, NksfError>(e),
        },
{
    match v {
        Value::Str(s) => Ok(s.clone()),
        Value::Nil => Ok(String::new()),
        other => Err(NksfError::ExpectedString(other.kind_code())),
    }
}

fn as_bool(v: &Value) -> (r: Result<bool, NksfError>)
    ensures
        match r {
            Ok(b) => spec_as_bool(v@) == Ok::<_, NksfError>(b),
            Err(e) => spec_as_bool(v@) == Err::<bool, NksfError>(e),
        },
{
    match v {
        Value::Bool(b) => Ok(*b),
        other => Err(NksfError::ExpectedBool(other.kind_code())),
    }
}

fn as_i32(v: &Value) -> (r: Result<i32, NksfError>)
    ensures
        match r {
            Ok(x) => spec_as_i32(v@) == Ok::<_, NksfError>(x),
            Err(e) => spec_as_i32(v@) == Err::<i32, NksfError>(e),
        },
{
    match v {
        Value::Int(n) => {
            if i32::MIN as i64 <= *n && *n <= i32::MAX as i64 {
                Ok(*n as i32)
            } else {
                Err(NksfError::IntOutOfRange(*n))
            }
        },
        other => Err(NksfError::ExpectedInteger(other.kind_code())),
    }
}

fn str_list_items(items: &Vec<Value>) -> (r: Result<Vec<String>, NksfError>)
    ensures
        match r {
            Ok(x) => fold_res(view_list(items@), Seq::empty(), push_str_step()) == Ok::<_, NksfError>(strings_view(x@)),
            Err(e) => fold_res(view_list(items@), Seq::empty(), push_str_step()) == Err::<Seq<Seq<char>>, NksfError>(e),
        },
{
    let ghost vl = view_list(items@);
    proof {
        lemma_view_list(items@);
    }
    let mut out: Vec<String> = Vec::new();
    let mut i: usize = 0;
    assert(vl.take(0) =~= Seq::<SpecValue>::empty());
    assert(strings_view(out@) =~= Seq::<Seq<char>>::empty());
    while i < items.len()
        invariant
            vl == view_list(items@),
            vl.len() == items@.len(),
            forall|j: int| 0 <= j < items@.len() ==> #[trigger] vl[j] == items@[j]@,
            i <= items@.len(),
            fold_res(vl.take(i as int), Seq::empty(), push_str_step()) == Ok::<_, NksfError>(strings_view(out@)),
        decreases items.len() - i,
    {
        proof {
            lemma_fold_step(vl, i as int, Seq::empty(), push_str_step());
        }
        match as_str(&items[i]) {
            Ok(x) => {
                let ghost before = out@;
                out.push(x);
                proof {
                    assert(strings_view(out@) =~= strings_view(before).push(x@));
                }
                i = i + 1;
            },
            Err(e) => {
                proof {
                    lemma_fold_err(vl, i + 1, Seq::empty(), push_str_step());
                }
                return Err(e);
            },
        }
    }
    proof {
        lemma_fold_all(vl, Seq::empty(), push_str_step());
    }
    Ok(out)
}

fn as_str_list(v: &Value) -> (r: Result<Vec<String>, NksfError>)
    ensures
        match r {
            Ok(x) => spec_as_str_list(v@) == Ok::<_, NksfError>(strings_view(x@)),
            Err(e) => spec_as_str_list(v@) == Err::<Seq<Seq<char>>, NksfError>(e),
        },
{
    match as_arr(v) {
        Ok(items) => str_list_items(items),
        Err(e) => Err(e),
    }
}

fn types_items(items: &Vec<Value>) -> (r: Result<Vec<Vec<String>>, NksfError>)
    ensures
        match r {
            Ok(x) => fold_res(view_list(items@), Seq::empty(), push_str_list_step())
                == Ok::<_, NksfError>(x@.map_values(|p: Vec<String>| strings_view(p@))),
            Err(e) => fold_res(view_list(items@), Seq::empty(), push_str_list_step()) == Err::<Seq<Seq<Seq<char>>>, NksfError>(e),
        },
{
    let ghost vl = view_list(items@);
    proof {
        lemma_view_list(items@);
    }
    let mut out: Vec<Vec<String>> = Vec::new();
    let mut i: usize = 0;
    assert(vl.take(0) =~= Seq::<SpecValue>::empty());
    assert(out@.map_values(|p: Vec<String>| strings_view(p@)) =~= Seq::<Seq<Seq<char>>>::empty());
    while i < items.len()
        invariant
            vl == view_list(items@),
            vl.len() == items@.len(),
            forall|j: int| 0 <= j < items@.len() ==> #[trigger] vl[j] == items@[j]@,
            i <= items@.len(),
            fold_res(vl.take(i as int), Seq::empty(), push_str_list_step())
                == Ok::<_, NksfError>(out@.map_values(|p: Vec<String>| strings_view(p@))),
        decreases items.len() - i,
    {
        proof {
            lemma_fold_step(vl, i as int, Seq::empty(), push_str_list_step());
        }
        match as_str_list(&items[i]) {
            Ok(x) => {
                let ghost before = out@;
                out.push(x);
                proof {
                    assert(out@.map_values(|p: Vec<String>| strings_view(p@)) =~= before.map_values(
                        |p: Vec<String>| strings_view(p@),
                    ).push(strings_view(x@)));
                }
                i = i + 1;
            },
            Err(e) => {
                proof {
                    lemma_fold_err(vl, i + 1, Seq::empty(), push_str_list_step());
                }
                return Err(e);
            },
        }
    }
    proof {
        lemma_fold_all(vl, Seq::empty(), push_str_list_step());
    }
    Ok(out)
}

/// The pairs of a MessagePack chunk body's map.
fn chunk_map(body: &[u8]) -> (r: Result<Vec<(String, Value)>, NksfError>)
    ensures
        match r {
            Ok(p) => spec_chunk_map(body@) == Ok::<_, NksfError>(view_pairs(p@)),
            Err(e) => spec_chunk_map(body@) == Err::<Seq<(Seq<char>, SpecValue)>, NksfError>(e),
        },
{
    if body.len() < 4 {
        return Err(NksfError::ShortVersion);
    }
    let rest = &body[4..body.len()];
    assert(rest@ =~= body@.skip(4));
    match decode_value(rest) {
        Ok(Value::Mapping(p)) => Ok(p),
        Ok(other) => Err(NksfError::ExpectedMap(other.kind_code())),
        Err(e) => Err(NksfError::Msgpack(e)),
    }
}

fn empty_meta_exec() -> (r: NksMeta)
    ensures
        r@ == empty_meta(),
{
    let r = NksMeta {
        name: String::new(),
        author: String::new(),
        vendor: String::new(),
        comment: String::new(),
        device_type: String::new(),
        bankchain: Vec::new(),
        types: Vec::new(),
        modes: Vec::new(),
        uuid: String::new(),
    };
    assert(r@.bankchain =~= empty_meta().bankchain);
    assert(r@.types =~= empty_meta().types);
    assert(r@.modes =~= empty_meta().modes);
    r
}

/// Reads the NISI summary from a chunk body (version prefix, then a
/// MessagePack map); keys it does not know are ignored.
pub fn decode_nisi(body: &[u8]) -> (r: Result<NksMeta, NksfError>)
    ensures
        match r {
            Ok(m) => spec_decode_nisi(body@) == Ok::<_, NksfError>(m@),
            Err(e) => spec_decode_nisi(body@) == Err::<MetaView, NksfError>(e),
        },
{
    let pairs = match chunk_map(body) {
        Ok(p) => p,
        Err(e) => return Err(e),
    };
    let ghost vp = view_pairs(pairs@);
    proof {
        lemma_view_pairs(pairs@);
        reveal_strlit("name");
        reveal_strlit("author");
        reveal_strlit("vendor");
        reveal_strlit("comment");
        reveal_strlit("deviceType");
        reveal_strlit("uuid");
        reveal_strlit("bankchain");
        reveal_strlit("modes");
        reveal_strlit("types");
    }
    let mut m = empty_meta_exec();
    let mut i: usize = 0;
    while i < pairs.len()
        invariant
            vp == view_pairs(pairs@),
            spec_chunk_map(body@) == Ok::<_, NksfError>(vp),
            vp.len() == pairs@.len(),
            forall|j: int| 0 <= j < pairs@.len() ==> #[trigger] vp[j] == (pairs@[j].0@, pairs@[j].1@),
            i <= pairs@.len(),
            fold_res(vp.take(i as int), empty_meta(), nisi_step()) == Ok::<_, NksfError>(m@),
        decreases pairs.len() - i,
    {
        proof {
            lemma_fold_step(vp, i as int, empty_meta(), nisi_step());
        }
        let (k, v) = &pairs[i];
        let step: Result<(), NksfError> = if key_is(k, "name") {
            match as_str(v) { Ok(x) => { m.name = x; Ok(()) }, Err(e) => Err(e) }
        } else if key_is(k, "author") {
            match as_str(v) { Ok(x) => { m.author = x; Ok(()) }, Err(e) => Err(e) }
        } else if key_is(k, "vendor") {
            match as_str(v) { Ok(x) => { m.vendor = x; Ok(()) }, Err(e) => Err(e) }
        } else if key_is(k, "comment") {
            match as_str(v) { Ok(x) => { m.comment = x; Ok(()) }, Err(e) => Err(e) }
        } else if key_is(k, "deviceType") {
            match as_str(v) { Ok(x) => { m.device_type = x; Ok(()) }, Err(e) => Err(e) }
        } else if key_is(k, "uuid") {
            match as_str(v) { Ok(x) => { m.uuid = x; Ok(()) }, Err(e) => Err(e) }
        } else if key_is(k, "bankchain") {
            match as_str_list(v) { Ok(x) => { m.bankchain = x; Ok(()) }, Err(e) => Err(e) }
        } else if key_is(k, "modes") {
            match as_str_list(v) { Ok(x) => { m.modes = x; Ok(()) }, Err(e) => Err(e) }
        } else if key_is(k, "types") {
            match as_arr(v) {
                Ok(items) => match types_items(items) {
                    Ok(x) => { m.types = x; Ok(()) },
                    Err(e) => Err(e),
                },
                Err(e) => Err(e),
            }
        } else {
            Ok(())
        };
        match step {
            Ok(()) => {
                i = i + 1;
            },
            Err(e) => {
                proof {
                    assert(fold_res(vp.take(i + 1), empty_meta(), nisi_step()) == Err::<MetaView, NksfError>(e));
                    lemma_fold_err(vp, i + 1, empty_meta(), nisi_step());
                }
                return Err(e);
            },
        }
    }
    proof {
        lemma_fold_all(vp, empty_meta(), nisi_step());
    }
    Ok(m)
}


/// `format!("{:?}", s)`: the Debug form of a string, named, not described.
#[verifier::external_body]
fn debug_string(s: &String) -> (r: String)
    ensures
        r@ == debug_quoted(s@),
{
    format!("{:?}", s)
}

/// The text of a parse error.
pub fn nksf_error_text(e: NksfError) -> (r: String)
    ensures
        r@ == nksf_error_message(e),
{
    match e {
        NksfError::TooShort => string_of("too short to be a RIFF file"),
        NksfError::MissingRiff => string_of("missing RIFF magic"),
        NksfError::NotNiks => string_of("not an NKSF file (form type != NIKS)"),
        NksfError::ChunkPastEnd(a, b, c, d, size) => {
            let id = [a, b, c, d];
            let name = lossy_string(id.as_slice());
            let mut s = string_of("chunk ");
            s.append(debug_string(&name).as_str());
            s.append(" claims ");
            push_decimal(&mut s, size as u64);
            s.append(" bytes past end of file");
            proof {
                assert(id@ =~= seq![a, b, c, d]);
            }
            s
        },
        NksfError::MissingNisi => string_of("missing NISI chunk"),
        NksfError::ShortVersion => string_of("chunk shorter than its 4-byte version prefix"),
        NksfError::Msgpack(m) => mp_error_text(m),
        NksfError::ExpectedMap(k) => {
            let mut s = string_of("expected a map, got ");
            s.append(kind_str(k));
            s
        },
        NksfError::ExpectedArray(k) => {
            let mut s = string_of("expected an array, got ");
            s.append(kind_str(k));
            s
        },
        NksfError::ExpectedString(k) => {
            let mut s = string_of("expected a string, got ");
            s.append(kind_str(k));
            s
        },
        NksfError::ExpectedBool(k) => {
            let mut s = string_of("expected a bool, got ");
            s.append(kind_str(k));
            s
        },
        NksfError::ExpectedInteger(k) => {
            let mut s = string_of("expected an integer, got ");
            s.append(kind_str(k));
            s
        },
        NksfError::IntOutOfRange(n) => {
            let mut s = string_of("integer ");
            push_signed_decimal(&mut s, n);
            s.append(" out of i32 range");
            s
        },
        NksfError::Vst3Words => string_of("VST3.uid must have exactly 4 words"),
    }
}


fn i32_items(items: &Vec<Value>) -> (r: Result<Vec<i32>, NksfError>)
    ensures
        match r {
            Ok(x) => fold_res(view_list(items@), Seq::empty(), push_i32_step()) == Ok::<_, NksfError>(x@),
            Err(e) => fold_res(view_list(items@), Seq::empty(), push_i32_step()) == Err::<Seq<i32>, NksfError>(e),
        },
{
    let ghost vl = view_list(items@);
    proof {
        lemma_view_list(items@);
    }
    let mut out: Vec<i32> = Vec::new();
    let mut i: usize = 0;
    assert(vl.take(0) =~= Seq::<SpecValue>::empty());
    assert(out@ =~= Seq::<i32>::empty());
    while i < items.len()
        invariant
            vl == view_list(items@),
            vl.len() == items@.len(),
            forall|j: int| 0 <= j < items@.len() ==> #[trigger] vl[j] == items@[j]@,
            i <= items@.len(),
            fold_res(vl.take(i as int), Seq::empty(), push_i32_step()) == Ok::<_, NksfError>(out@),
        decreases items.len() - i,
    {
        proof {
            lemma_fold_step(vl, i as int, Seq::empty(), push_i32_step());
        }
        match as_i32(&items[i]) {
            Ok(x) => {
                out.push(x);
                i = i + 1;
            },
            Err(e) => {
                proof {
                    lemma_fold_err(vl, i + 1, Seq::empty(), push_i32_step());
                }
                return Err(e);
            },
        }
    }
    proof {
        lemma_fold_all(vl, Seq::empty(), push_i32_step());
    }
    Ok(out)
}

fn decode_plid(body: &[u8]) -> (r: Result<Plid, NksfError>)
    ensures
        match r {
            Ok(p) => spec_decode_plid(body@) == Ok::<_, NksfError>(p@),
            Err(e) => spec_decode_plid(body@) == Err::<PlidView, NksfError>(e),
        },
{
    let pairs = match chunk_map(body) {
        Ok(p) => p,
        Err(e) => return Err(e),
    };
    let ghost vp = view_pairs(pairs@);
    proof {
        lemma_view_pairs(pairs@);
        reveal_strlit("CLAP.id");
        reveal_strlit("VST.magic");
        reveal_strlit("VST3.uid");
    }
    let mut pl = Plid { clap_id: None, vst3_uid: None, vst_magic: None };
    let mut i: usize = 0;
    while i < pairs.len()
        invariant
            vp == view_pairs(pairs@),
            spec_chunk_map(body@) == Ok::<_, NksfError>(vp),
            vp.len() == pairs@.len(),
            forall|j: int| 0 <= j < pairs@.len() ==> #[trigger] vp[j] == (pairs@[j].0@, pairs@[j].1@),
            i <= pairs@.len(),
            fold_res(vp.take(i as int), empty_plid(), plid_step()) == Ok::<_, NksfError>(pl@),
        decreases pairs.len() - i,
    {
        proof {
            lemma_fold_step(vp, i as int, empty_plid(), plid_step());
        }
        let (k, v) = &pairs[i];
        let step: Result<(), NksfError> = if key_is(k, "CLAP.id") {
            match as_str(v) { Ok(x) => { pl.clap_id = Some(x); Ok(()) }, Err(e) => Err(e) }
        } else if key_is(k, "VST.magic") {
            match as_i32(v) { Ok(x) => { pl.vst_magic = Some(x); Ok(()) }, Err(e) => Err(e) }
        } else if key_is(k, "VST3.uid") {
            match as_arr(v) {
                Ok(items) => match i32_items(items) {
                    Ok(ws) => {
                        if ws.len() == 4 {
                            let uid = [ws[0], ws[1], ws[2], ws[3]];
                            assert(uid@ =~= ws@);
                            pl.vst3_uid = Some(uid);
                            Ok(())
                        } else {
                            Err(NksfError::Vst3Words)
                        }
                    },
                    Err(e) => Err(e),
                },
                Err(e) => Err(e),
            }
        } else {
            Ok(())
        };
        match step {
            Ok(()) => {
                i = i + 1;
            },
            Err(e) => {
                proof {
                    lemma_fold_err(vp, i + 1, empty_plid(), plid_step());
                }
                return Err(e);
            },
        }
    }
    proof {
        lemma_fold_all(vp, empty_plid(), plid_step());
    }
    Ok(pl)
}

fn decode_control(v: &Value) -> (r: Result<RemoteControl, NksfError>)
    ensures
        match r {
            Ok(c) => spec_decode_control(v@) == Ok::<_, NksfError>(c@),
            Err(e) => spec_decode_control(v@) == Err::<ControlView, NksfError>(e),
        },
{
    let pairs = match as_map(v) {
        Ok(p) => p,
        Err(e) => return Err(e),
    };
    let ghost vp = view_pairs(pairs@);
    proof {
        lemma_view_pairs(pairs@);
        reveal_strlit("id");
        reveal_strlit("name");
        reveal_strlit("section");
        reveal_strlit("autoname");
        reveal_strlit("vflag");
    }
    let mut c = RemoteControl {
        id: String::new(),
        name: String::new(),
        section: String::new(),
        autoname: false,
        vflag: false,
    };
    let mut i: usize = 0;
    while i < pairs.len()
        invariant
            vp == view_pairs(pairs@),
            spec_as_map(v@) == Ok::<_, NksfError>(vp),
            vp.len() == pairs@.len(),
            forall|j: int| 0 <= j < pairs@.len() ==> #[trigger] vp[j] == (pairs@[j].0@, pairs@[j].1@),
            i <= pairs@.len(),
            fold_res(vp.take(i as int), empty_control(), control_step()) == Ok::<_, NksfError>(c@),
        decreases pairs.len() - i,
    {
        proof {
            lemma_fold_step(vp, i as int, empty_control(), control_step());
        }
        let (k, val) = &pairs[i];
        let step: Result<(), NksfError> = if key_is(k, "id") {
            match as_str(val) { Ok(x) => { c.id = x; Ok(()) }, Err(e) => Err(e) }
        } else if key_is(k, "name") {
            match as_str(val) { Ok(x) => { c.name = x; Ok(()) }, Err(e) => Err(e) }
        } else if key_is(k, "section") {
            match as_str(val) { Ok(x) => { c.section = x; Ok(()) }, Err(e) => Err(e) }
        } else if key_is(k, "autoname") {
            match as_bool(val) { Ok(x) => { c.autoname = x; Ok(()) }, Err(e) => Err(e) }
        } else if key_is(k, "vflag") {
            match as_bool(val) { Ok(x) => { c.vflag = x; Ok(()) }, Err(e) => Err(e) }
        } else {
            Ok(())
        };
        match step {
            Ok(()) => {
                i = i + 1;
            },
            Err(e) => {
                proof {
                    lemma_fold_err(vp, i + 1, empty_control(), control_step());
                }
                return Err(e);
            },
        }
    }
    proof {
        lemma_fold_all(vp, empty_control(), control_step());
    }
    Ok(c)
}

fn page_items(items: &Vec<Value>) -> (r: Result<Vec<RemoteControl>, NksfError>)
    ensures
        match r {
            Ok(x) => fold_res(view_list(items@), Seq::empty(), push_control_step())
                == Ok::<_, NksfError>(x@.map_values(|c: RemoteControl| c@)),
            Err(e) => fold_res(view_list(items@), Seq::empty(), push_control_step()) == Err::<Seq<ControlView>, NksfError>(e),
        },
{
    let ghost vl = view_list(items@);
    proof {
        lemma_view_list(items@);
    }
    let mut out: Vec<RemoteControl> = Vec::new();
    let mut i: usize = 0;
    assert(vl.take(0) =~= Seq::<SpecValue>::empty());
    assert(out@.map_values(|c: RemoteControl| c@) =~= Seq::<ControlView>::empty());
    while i < items.len()
        invariant
            vl == view_list(items@),
            vl.len() == items@.len(),
            forall|j: int| 0 <= j < items@.len() ==> #[trigger] vl[j] == items@[j]@,
            i <= items@.len(),
            fold_res(vl.take(i as int), Seq::empty(), push_control_step())
                == Ok::<_, NksfError>(out@.map_values(|c: RemoteControl| c@)),
        decreases items.len() - i,
    {
        proof {
            lemma_fold_step(vl, i as int, Seq::empty(), push_control_step());
        }
        match decode_control(&items[i]) {
            Ok(x) => {
                let ghost before = out@;
                out.push(x);
                proof {
                    assert(out@.map_values(|c: RemoteControl| c@) =~= before.map_values(|c: RemoteControl| c@).push(x@));
                }
                i = i + 1;
            },
            Err(e) => {
                proof {
                    lemma_fold_err(vl, i + 1, Seq::empty(), push_control_step());
                }
                return Err(e);
            },
        }
    }
    proof {
        lemma_fold_all(vl, Seq::empty(), push_control_step());
    }
    Ok(out)
}

fn pages_items(items: &Vec<Value>) -> (r: Result<Vec<Vec<RemoteControl>>, NksfError>)
    ensures
        match r {
            Ok(x) => fold_res(view_list(items@), Seq::empty(), push_page_step()) == Ok::<_, NksfError>(pages_view(x@)),
            Err(e) => fold_res(view_list(items@), Seq::empty(), push_page_step()) == Err::<Seq<Seq<ControlView>>, NksfError>(e),
        },
{
    let ghost vl = view_list(items@);
    proof {
        lemma_view_list(items@);
    }
    let mut out: Vec<Vec<RemoteControl>> = Vec::new();
    let mut i: usize = 0;
    assert(vl.take(0) =~= Seq::<SpecValue>::empty());
    assert(pages_view(out@) =~= Seq::<Seq<ControlView>>::empty());
    while i < items.len()
        invariant
            vl == view_list(items@),
            vl.len() == items@.len(),
            forall|j: int| 0 <= j < items@.len() ==> #[trigger] vl[j] == items@[j]@,
            i <= items@.len(),
            fold_res(vl.take(i as int), Seq::empty(), push_page_step()) == Ok::<_, NksfError>(pages_view(out@)),
        decreases items.len() - i,
    {
        proof {
            lemma_fold_step(vl, i as int, Seq::empty(), push_page_step());
        }
        let step = match as_arr(&items[i]) {
            Ok(page) => page_items(page),
            Err(e) => Err(e),
        };
        match step {
            Ok(x) => {
                let ghost before = out@;
                out.push(x);
                proof {
                    assert(pages_view(out@) =~= pages_view(before).push(x@.map_values(|c: RemoteControl| c@)));
                }
                i = i + 1;
            },
            Err(e) => {
                proof {
                    lemma_fold_err(vl, i + 1, Seq::empty(), push_page_step());
                }
                return Err(e);
            },
        }
    }
    proof {
        lemma_fold_all(vl, Seq::empty(), push_page_step());
    }
    Ok(out)
}

fn decode_nica(body: &[u8]) -> (r: Result<Vec<Vec<RemoteControl>>, NksfError>)
    ensures
        match r {
            Ok(x) => spec_decode_nica(body@) == Ok::<_, NksfError>(pages_view(x@)),
            Err(e) => spec_decode_nica(body@) == Err::<Seq<Seq<ControlView>>, NksfError>(e),
        },
{
    let pairs = match chunk_map(body) {
        Ok(p) => p,
        Err(e) => return Err(e),
    };
    let ghost vp = view_pairs(pairs@);
    proof {
        lemma_view_pairs(pairs@);
    }
    let mut i: usize = 0;
    while i < pairs.len()
        invariant
            vp == view_pairs(pairs@),
            vp.len() == pairs@.len(),
            forall|j: int| 0 <= j < pairs@.len() ==> #[trigger] vp[j] == (pairs@[j].0@, pairs@[j].1@),
            spec_chunk_map(body@) == Ok::<_, NksfError>(vp),
            i <= pairs@.len(),
            first_with_key(vp, k_ni8()) == first_with_key(vp.skip(i as int), k_ni8()),
        decreases pairs.len() - i,
    {
        let (k, v) = &pairs[i];
        proof {
            assert(vp.skip(i as int)[0] == vp[i as int]);
            assert(vp.skip(i as int).drop_first() =~= vp.skip(i + 1));
        }
        if key_is(k, "ni8") {
            let r = match as_arr(v) {
                Ok(pages) => pages_items(pages),
                Err(e) => Err(e),
            };
            return r;
        }
        i = i + 1;
    }
    proof {
        assert(vp.skip(i as int) =~= Seq::<(Seq<char>, SpecValue)>::empty());
        assert(pages_view(Seq::<Vec<RemoteControl>>::empty()) =~= Seq::<Seq<ControlView>>::empty());
    }
    Ok(Vec::new())
}


/// A chunk found in a form body: its id and where its body lies.
struct Chunk {
    id: [u8; 4],
    start: usize,
    end: usize,
}

pub open spec fn prepend_chunks(
    pre: Seq<(Seq<u8>, Seq<u8>)>,
    r: Result<Seq<(Seq<u8>, Seq<u8>)>, NksfError>,
) -> Result<Seq<(Seq<u8>, Seq<u8>)>, NksfError> {
    match r {
        Ok(cs) => Ok(pre + cs),
        Err(e) => Err(e),
    }
}

spec fn chunks_within(cs: Seq<Chunk>, n: nat) -> bool {
    forall|i: int| 0 <= i < cs.len() ==> #[trigger] cs[i].start <= cs[i].end <= n
}

spec fn chunks_view(cs: Seq<Chunk>, data: Seq<u8>) -> Seq<(Seq<u8>, Seq<u8>)> {
    cs.map_values(|c: Chunk| (c.id@, data.subrange(c.start as int, c.end as int)))
}

/// Returns the chunks of a form body. Bounds-checked; truncation is an error.
#[verifier::rlimit(40)]
fn walk_chunks(data: &[u8]) -> (r: Result<Vec<Chunk>, NksfError>)
    ensures
        match r {
            Ok(cs) => walk(data@) == Ok::<_, NksfError>(chunks_view(cs@, data@))
                && chunks_within(cs@, data@.len()),
            Err(e) => walk(data@) == Err::<Seq<(Seq<u8>, Seq<u8>)>, NksfError>(e),
        },
{
    let mut chunks: Vec<Chunk> = Vec::new();
    let mut off: usize = 0;
    let len = data.len();
    proof {
        lemma_pow256_values();
        assert(data@.skip(0) =~= data@);
        assert(chunks_view(chunks@, data@) =~= Seq::<(Seq<u8>, Seq<u8>)>::empty());
    }
    while len - off >= 8
        invariant
            len == data@.len(),
            off <= len,
            walk(data@) == prepend_chunks(chunks_view(chunks@, data@), walk(data@.skip(off as int))),
            chunks_within(chunks@, len as nat),
        decreases len - off,
    {
        let ghost rest = data@.skip(off as int);
        let id = [data[off], data[off + 1], data[off + 2], data[off + 3]];
        let size64 = read_le(data, off + 4, 4);
        proof {
            lemma_pow256_values();
            assert(rest.subrange(4, 8) =~= data@.subrange(off + 4, off + 8));
            lemma_le_value_bound(data@.subrange(off + 4, off + 8));
            assert(id@ =~= rest.subrange(0, 4));
        }
        let size = size64 as usize;
        let body_start = off + 8;
        let body_end = match body_start.checked_add(size) {
            Some(e) => {
                if e <= len {
                    e
                } else {
                    return Err(NksfError::ChunkPastEnd(id[0], id[1], id[2], id[3], size64 as u32));
                }
            },
            None => {
                return Err(NksfError::ChunkPastEnd(id[0], id[1], id[2], id[3], size64 as u32));
            },
        };
        let ghost before = chunks@;
        chunks.push(Chunk { id, start: body_start, end: body_end });
        proof {
            assert forall|i: int| 0 <= i < chunks@.len() implies #[trigger] chunks@[i].start <= chunks@[i].end <= len by {
                if i < before.len() {
                    assert(chunks@[i] == before[i]);
                }
            }
            assert(rest.subrange(8, 8 + size) =~= data@.subrange(body_start as int, body_end as int));
            assert(chunks_view(chunks@, data@) =~= chunks_view(before, data@).push(
                (id@, data@.subrange(body_start as int, body_end as int)),
            ));
        }
        if size % 2 == 1 && body_end >= len {
            proof {
                assert(chunks_view(chunks@, data@) =~= chunks_view(before, data@) + seq![(rest.subrange(0, 4), rest.subrange(8, 8 + size))]);
            }
            return Ok(chunks);
        }
        let advance = body_end + size % 2;
        proof {
            assert(rest.skip(8 + size + size % 2) =~= data@.skip(advance as int));
            let c = (rest.subrange(0, 4), rest.subrange(8, 8 + size));
            match walk(data@.skip(advance as int)) {
                Ok(cs) => {
                    assert(chunks_view(before, data@) + (seq![c] + cs) =~= chunks_view(chunks@, data@) + cs);
                },
                Err(_) => {},
            }
        }
        off = advance;
    }
    proof {
        assert(data@.skip(off as int).len() < 8);
        assert(walk(data@.skip(off as int)) == Ok::<_, NksfError>(Seq::<(Seq<u8>, Seq<u8>)>::empty()));
        assert(chunks_view(chunks@, data@) + Seq::<(Seq<u8>, Seq<u8>)>::empty() =~= chunks_view(chunks@, data@));
    }
    Ok(chunks)
}

/// The body range of the first chunk with id `id`.
fn find(chunks: &Vec<Chunk>, id: [u8; 4], data: Ghost<Seq<u8>>) -> (r: Option<(usize, usize)>)
    requires
        chunks_within(chunks@, data@.len()),
    ensures
        match r {
            Some((s, e)) => s <= e <= data@.len() && find_chunk(chunks_view(chunks@, data@), id@) == Some(data@.subrange(s as int, e as int)),
            None => find_chunk(chunks_view(chunks@, data@), id@) == None::<Seq<u8>>,
        },
{
    let ghost cv = chunks_view(chunks@, data@);
    let mut i: usize = 0;
    while i < chunks.len()
        invariant
            cv == chunks_view(chunks@, data@),
            forall|j: int| 0 <= j < chunks@.len() ==> #[trigger] chunks@[j].start <= chunks@[j].end <= data@.len(),
            i <= chunks@.len(),
            find_chunk(cv, id@) == find_chunk(cv.skip(i as int), id@),
        decreases chunks.len() - i,
    {
        let c = &chunks[i];
        proof {
            assert(cv.skip(i as int)[0] == cv[i as int]);
            assert(cv.skip(i as int).drop_first() =~= cv.skip(i + 1));
        }
        if c.id[0] == id[0] && c.id[1] == id[1] && c.id[2] == id[2] && c.id[3] == id[3] {
            proof {
                assert(c.id@ =~= id@);
            }
            return Some((c.start, c.end));
        }
        proof {
            if c.id@ == id@ {
                assert(c.id@[0] == id@[0]);
                assert(c.id@[1] == id@[1]);
                assert(c.id@[2] == id@[2]);
                assert(c.id@[3] == id@[3]);
            }
        }
        i = i + 1;
    }
    proof {
        assert(cv.skip(i as int) =~= Seq::<(Seq<u8>, Seq<u8>)>::empty());
    }
    None
}

fn tag_is(b: &[u8], at: usize, t: [u8; 4]) -> (r: bool)
    requires
        at + 4 <= b@.len(),
    ensures
        r == (b@.subrange(at as int, at + 4) == t@),
{
    let r = b[at] == t[0] && b[at + 1] == t[1] && b[at + 2] == t[2] && b[at + 3] == t[3];
    proof {
        let s = b@.subrange(at as int, at + 4);
        if r {
            assert(s =~= t@);
        } else if s == t@ {
            assert(s[0] == t@[0] && s[1] == t@[1] && s[2] == t@[2] && s[3] == t@[3]);
        }
    }
    r
}


fn parse_chunks(chunks: &Vec<Chunk>, body: &[u8]) -> (r: Result<Parsed, NksfError>)
    requires
        chunks_within(chunks@, body@.len()),
    ensures
        match r {
            Ok(p) => spec_parse_chunks(chunks_view(chunks@, body@)) == Ok::<_, NksfError>(p@),
            Err(e) => spec_parse_chunks(chunks_view(chunks@, body@)) == Err::<ParsedView, NksfError>(e),
        },
{
    let meta = match find(&chunks, [0x4e, 0x49, 0x53, 0x49], Ghost(body@)) {
        Some((s, e)) => match decode_nisi(&body[s..e]) {
            Ok(m) => m,
            Err(err) => return Err(err),
        },
        None => return Err(NksfError::MissingNisi),
    };
    let plugin_id = match find(&chunks, [0x50, 0x4c, 0x49, 0x44], Ghost(body@)) {
        Some((s, e)) => match decode_plid(&body[s..e]) {
            Ok(p) => p,
            Err(err) => return Err(err),
        },
        None => Plid { clap_id: None, vst3_uid: None, vst_magic: None },
    };
    let remote_controls = match find(&chunks, [0x4e, 0x49, 0x43, 0x41], Ghost(body@)) {
        Some((s, e)) => match decode_nica(&body[s..e]) {
            Ok(p) => p,
            Err(err) => return Err(err),
        },
        None => Vec::new(),
    };
    let pchk = match find(&chunks, [0x50, 0x43, 0x48, 0x4b], Ghost(body@)) {
        Some((s, e)) => {
            let mut v: Vec<u8> = Vec::new();
            v.extend_from_slice(&body[s..e]);
            assert(v@ =~= body@.subrange(s as int, e as int));
            v
        },
        None => Vec::new(),
    };
    let r = Parsed { meta, plugin_id, remote_controls, pchk };
    proof {
        assert(pages_view(Seq::<Vec<RemoteControl>>::empty()) =~= Seq::<Seq<ControlView>>::empty());
    }
    Ok(r)
}

/// Parses NKSF container bytes, reporting why they do not parse as an error.
pub fn parse_checked(bytes: &[u8]) -> (r: Result<Parsed, NksfError>)
    ensures
        match r {
            Ok(p) => spec_parse(bytes@) == Ok::<_, NksfError>(p@),
            Err(e) => spec_parse(bytes@) == Err::<ParsedView, NksfError>(e),
        },
{
    if bytes.len() < 12 {
        return Err(NksfError::TooShort);
    }
    if !tag_is(bytes, 0, [0x52, 0x49, 0x46, 0x46]) {
        return Err(NksfError::MissingRiff);
    }
    if !tag_is(bytes, 8, [0x4e, 0x49, 0x4b, 0x53]) {
        return Err(NksfError::NotNiks);
    }
    let body = &bytes[12..bytes.len()];
    assert(body@ =~= bytes@.skip(12));
    let chunks = match walk_chunks(body) {
        Ok(c) => c,
        Err(e) => return Err(e),
    };

    parse_chunks(&chunks, body)
}

/// Parse NKSF container bytes into a structured value.
pub fn parse(bytes: &[u8]) -> (r: Result<Parsed, String>)
    ensures
        match spec_parse(bytes@) {
            Ok(p) => r matches Ok(x) && x@ == p,
            Err(e) => r matches Err(m) && m@ == nksf_error_message(e),
        },
{
    match parse_checked(bytes) {
        Ok(p) => Ok(p),
        Err(e) => Err(nksf_error_text(e)),
    }
}

} // verus!

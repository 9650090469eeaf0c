//! What holds of the NKSF codec as a whole: parsing what `encode` wrote
//! gives the preset back, and the container has the documented shape.
use vstd::prelude::*;
use vstd::utf8::*;
use crate::msgpack::{SpecValue, spec_encode, spec_decode, encodable, encodable_list, encodable_pairs, law_decode_encode, MpError};
use crate::wire::{le_bytes, le_value, lemma_le_roundtrip, lemma_le_bytes_len, lemma_pow256_values};
use crate::nksf::{
    ParsedView, MetaView, PlidView, ControlView, NksfError, nksf_bytes, inner_bytes, chunk_bytes,
    versioned, walk, prepend_chunks, find_chunk, spec_parse, spec_parse_chunks, spec_opt_plid,
    spec_opt_nica, spec_opt_pchk, spec_chunk_map, lemma_fold_step, lemma_fold_all, spec_decode_nisi, spec_decode_plid,
    spec_decode_nica, spec_decode_control, nisi_value, plid_value, nica_value, control_value,
    page_value, str_values, nisi_body, nica_body, plid_body, riff_tag, niks_tag, nisi_tag,
    nica_tag, plid_tag, pchk_tag, fold_res, push_str_step, push_str_list_step, push_i32_step,
    push_control_step, push_page_step, nisi_step, plid_step, control_step, empty_meta,
    empty_plid, empty_control, first_with_key, k_name, k_author, k_vendor, k_comment,
    k_device_type, k_bankchain, k_types, k_modes, k_uuid, k_clap_id, k_vst3_uid, k_vst_magic,
    k_ni8, k_id, k_section, k_autoname, k_vflag, spec_as_str, spec_as_arr,
};

verus! {

broadcast use vstd::seq_lib::group_seq_properties;

// ---------------------------------------------------------------------------
// Sizes the format can carry
// ---------------------------------------------------------------------------

/// A string whose UTF-8 form fits a 16-bit length.
pub open spec fn str_fits(s: Seq<char>) -> bool {
    encode_utf8(s).len() < 0x1_0000
}

/// A list of strings that fits 16-bit lengths.
pub open spec fn strs_fit(x: Seq<Seq<char>>) -> bool {
    x.len() < 0x1_0000 && forall|i: int| 0 <= i < x.len() ==> #[trigger] str_fits(x[i])
}

pub open spec fn meta_fits(m: MetaView) -> bool {
    &&& str_fits(m.name)
    &&& str_fits(m.author)
    &&& str_fits(m.vendor)
    &&& str_fits(m.comment)
    &&& str_fits(m.device_type)
    &&& str_fits(m.uuid)
    &&& strs_fit(m.bankchain)
    &&& strs_fit(m.modes)
    &&& m.types.len() < 0x1_0000
    &&& forall|i: int| 0 <= i < m.types.len() ==> #[trigger] strs_fit(m.types[i])
}

/// Plugin ids as a `Plid` holds them: a four-word VST3 uid, a CLAP id that fits.
pub open spec fn plid_fits(p: PlidView) -> bool {
    &&& (p.clap_id matches Some(id) ==> str_fits(id))
    &&& (p.vst3_uid matches Some(u) ==> u.len() == 4)
}

pub open spec fn control_fits(c: ControlView) -> bool {
    str_fits(c.id) && str_fits(c.name) && str_fits(c.section)
}

pub open spec fn page_fits(page: Seq<ControlView>) -> bool {
    page.len() < 0x1_0000 && forall|j: int| 0 <= j < page.len() ==> #[trigger] control_fits(page[j])
}

pub open spec fn pages_fit(pages: Seq<Seq<ControlView>>) -> bool {
    pages.len() < 0x1_0000 && forall|i: int| 0 <= i < pages.len() ==> #[trigger] page_fits(pages[i])
}

/// Each chunk body of the preset fits the 32-bit RIFF chunk size.
pub open spec fn chunks_fit(p: ParsedView) -> bool {
    &&& nisi_body(p).len() < 0x1_0000_0000
    &&& nica_body(p).len() < 0x1_0000_0000
    &&& plid_body(p).len() < 0x1_0000_0000
    &&& p.pchk.len() < 0x1_0000_0000
}

/// A preset the container carries without loss: its strings and lists fit
/// the MessagePack 16-bit lengths and each chunk body fits the 32-bit RIFF
/// chunk size.
pub open spec fn preset_fits(p: ParsedView) -> bool {
    &&& meta_fits(p.meta)
    &&& plid_fits(p.plugin_id)
    &&& pages_fit(p.remote_controls)
    &&& chunks_fit(p)
}

// ---------------------------------------------------------------------------
// The container
// ---------------------------------------------------------------------------

proof fn lemma_walk_chunk(id: Seq<u8>, body: Seq<u8>, rest: Seq<u8>)
    requires
        id.len() == 4,
        body.len() < 0x1_0000_0000,
    ensures
        walk(chunk_bytes(id, body) + rest) == prepend_chunks(seq![(id, body)], walk(rest)),
{
    lemma_pow256_values();
    let n = body.len();
    let d = chunk_bytes(id, body) + rest;
    lemma_le_bytes_len(n, 4);
    lemma_le_roundtrip(n, 4);
    assert(d.subrange(4, 8) =~= le_bytes(n % 0x1_0000_0000, 4));
    assert(d.subrange(0, 4) =~= id);
    assert(d.subrange(8, (8 + n) as int) =~= body);
    assert(d.skip((8 + n + n % 2) as int) =~= rest);
}

proof fn lemma_walk_inner(p: ParsedView)
    requires
        chunks_fit(p),
    ensures
        walk(inner_bytes(p)) == Ok::<_, NksfError>(seq![
            (nisi_tag(), nisi_body(p)),
            (nica_tag(), nica_body(p)),
            (plid_tag(), plid_body(p)),
            (pchk_tag(), p.pchk),
        ]),
{
    let c1 = chunk_bytes(nisi_tag(), nisi_body(p));
    let c2 = chunk_bytes(nica_tag(), nica_body(p));
    let c3 = chunk_bytes(plid_tag(), plid_body(p));
    let c4 = chunk_bytes(pchk_tag(), p.pchk);
    let e = Seq::<u8>::empty();
    assert(inner_bytes(p) =~= c1 + (c2 + (c3 + (c4 + e))));
    lemma_walk_chunk(pchk_tag(), p.pchk, e);
    lemma_walk_chunk(plid_tag(), plid_body(p), c4 + e);
    lemma_walk_chunk(nica_tag(), nica_body(p), c3 + (c4 + e));
    lemma_walk_chunk(nisi_tag(), nisi_body(p), c2 + (c3 + (c4 + e)));
    assert(walk(e) == Ok::<_, NksfError>(Seq::<(Seq<u8>, Seq<u8>)>::empty()));
    assert(seq![(pchk_tag(), p.pchk)] + Seq::<(Seq<u8>, Seq<u8>)>::empty() =~= seq![(pchk_tag(), p.pchk)]);
    assert(seq![(plid_tag(), plid_body(p))] + seq![(pchk_tag(), p.pchk)] =~= seq![(plid_tag(), plid_body(p)), (pchk_tag(), p.pchk)]);
    assert(seq![(nica_tag(), nica_body(p))] + seq![(plid_tag(), plid_body(p)), (pchk_tag(), p.pchk)] =~= seq![
        (nica_tag(), nica_body(p)),
        (plid_tag(), plid_body(p)),
        (pchk_tag(), p.pchk),
    ]);
    assert(seq![(nisi_tag(), nisi_body(p))] + seq![
        (nica_tag(), nica_body(p)),
        (plid_tag(), plid_body(p)),
        (pchk_tag(), p.pchk),
    ] =~= seq![
        (nisi_tag(), nisi_body(p)),
        (nica_tag(), nica_body(p)),
        (plid_tag(), plid_body(p)),
        (pchk_tag(), p.pchk),
    ]);
}


// ---------------------------------------------------------------------------
// What MessagePack can write
// ---------------------------------------------------------------------------

proof fn lemma_utf8_len_bound(s: Seq<char>)
    ensures
        encode_utf8(s).len() <= 4 * s.len(),
    decreases s.len(),
{
    if s.len() > 0 {
        lemma_utf8_len_bound(s.drop_first());
    }
}

proof fn lemma_keys_fit()
    ensures
        encode_utf8(k_name()).len() < 0x1_0000,
        encode_utf8(k_author()).len() < 0x1_0000,
        encode_utf8(k_vendor()).len() < 0x1_0000,
        encode_utf8(k_comment()).len() < 0x1_0000,
        encode_utf8(k_device_type()).len() < 0x1_0000,
        encode_utf8(k_bankchain()).len() < 0x1_0000,
        encode_utf8(k_types()).len() < 0x1_0000,
        encode_utf8(k_modes()).len() < 0x1_0000,
        encode_utf8(k_uuid()).len() < 0x1_0000,
        encode_utf8(k_clap_id()).len() < 0x1_0000,
        encode_utf8(k_vst3_uid()).len() < 0x1_0000,
        encode_utf8(k_vst_magic()).len() < 0x1_0000,
        encode_utf8(k_ni8()).len() < 0x1_0000,
        encode_utf8(k_id()).len() < 0x1_0000,
        encode_utf8(k_section()).len() < 0x1_0000,
        encode_utf8(k_autoname()).len() < 0x1_0000,
        encode_utf8(k_vflag()).len() < 0x1_0000,
{
    reveal_strlit("name");
    reveal_strlit("author");
    reveal_strlit("vendor");
    reveal_strlit("comment");
    reveal_strlit("deviceType");
    reveal_strlit("bankchain");
    reveal_strlit("types");
    reveal_strlit("modes");
    reveal_strlit("uuid");
    reveal_strlit("CLAP.id");
    reveal_strlit("VST3.uid");
    reveal_strlit("VST.magic");
    reveal_strlit("ni8");
    reveal_strlit("id");
    reveal_strlit("section");
    reveal_strlit("autoname");
    reveal_strlit("vflag");
    lemma_utf8_len_bound(k_name());
    lemma_utf8_len_bound(k_author());
    lemma_utf8_len_bound(k_vendor());
    lemma_utf8_len_bound(k_comment());
    lemma_utf8_len_bound(k_device_type());
    lemma_utf8_len_bound(k_bankchain());
    lemma_utf8_len_bound(k_types());
    lemma_utf8_len_bound(k_modes());
    lemma_utf8_len_bound(k_uuid());
    lemma_utf8_len_bound(k_clap_id());
    lemma_utf8_len_bound(k_vst3_uid());
    lemma_utf8_len_bound(k_vst_magic());
    lemma_utf8_len_bound(k_ni8());
    lemma_utf8_len_bound(k_id());
    lemma_utf8_len_bound(k_section());
    lemma_utf8_len_bound(k_autoname());
    lemma_utf8_len_bound(k_vflag());
}

proof fn lemma_encodable_list(s: Seq<SpecValue>)
    requires
        forall|i: int| 0 <= i < s.len() ==> #[trigger] encodable(s[i]),
    ensures
        encodable_list(s),
    decreases s.len(),
{
    if s.len() > 0 {
        let t = s.drop_first();
        assert forall|i: int| 0 <= i < t.len() implies #[trigger] encodable(t[i]) by {
            assert(t[i] == s[i + 1]);
        }
        assert(encodable(s[0]));
        lemma_encodable_list(t);
    }
}

proof fn lemma_encodable_pairs(s: Seq<(Seq<char>, SpecValue)>)
    requires
        forall|i: int| 0 <= i < s.len() ==> encode_utf8(#[trigger] s[i].0).len() < 0x1_0000 && encodable(s[i].1),
    ensures
        encodable_pairs(s),
    decreases s.len(),
{
    if s.len() > 0 {
        let t = s.drop_first();
        assert forall|i: int| 0 <= i < t.len() implies encode_utf8(#[trigger] t[i].0).len() < 0x1_0000 && encodable(t[i].1) by {
            assert(t[i] == s[i + 1]);
        }
        assert(encode_utf8(s[0].0).len() < 0x1_0000 && encodable(s[0].1));
        lemma_encodable_pairs(t);
    }
}

proof fn lemma_strs_encodable(l: Seq<Seq<char>>)
    requires
        strs_fit(l),
    ensures
        encodable(SpecValue::Arr(str_values(l))),
{
    let a = str_values(l);
    assert forall|i: int| 0 <= i < a.len() implies #[trigger] encodable(a[i]) by {
        assert(str_fits(l[i]));
    }
    lemma_encodable_list(a);
}

proof fn lemma_nisi_encodable(m: MetaView)
    requires
        meta_fits(m),
    ensures
        encodable(nisi_value(m)),
{
    lemma_keys_fit();
    lemma_strs_encodable(m.bankchain);
    lemma_strs_encodable(m.modes);
    let t = m.types.map_values(|p: Seq<Seq<char>>| SpecValue::Arr(str_values(p)));
    assert forall|i: int| 0 <= i < t.len() implies #[trigger] encodable(t[i]) by {
        assert(strs_fit(m.types[i]));
        lemma_strs_encodable(m.types[i]);
    }
    lemma_encodable_list(t);
    match nisi_value(m) {
        SpecValue::Mapping(ps) => lemma_encodable_pairs(ps),
        _ => {},
    }
}

proof fn lemma_plid_encodable(p: PlidView)
    requires
        plid_fits(p),
    ensures
        encodable(plid_value(p)),
{
    lemma_keys_fit();
    match p.vst3_uid {
        Some(u) => {
            let a = u.map_values(|w: i32| SpecValue::Int(w as i64));
            assert forall|i: int| 0 <= i < a.len() implies #[trigger] encodable(a[i]) by {}
            lemma_encodable_list(a);
        },
        None => {},
    }
    match plid_value(p) {
        SpecValue::Mapping(ps) => lemma_encodable_pairs(ps),
        _ => {},
    }
}

proof fn lemma_control_encodable(c: ControlView)
    requires
        control_fits(c),
    ensures
        encodable(control_value(c)),
{
    lemma_keys_fit();
    match control_value(c) {
        SpecValue::Mapping(ps) => lemma_encodable_pairs(ps),
        _ => {},
    }
}

proof fn lemma_nica_encodable(pages: Seq<Seq<ControlView>>)
    requires
        pages_fit(pages),
    ensures
        encodable(nica_value(pages)),
{
    lemma_keys_fit();
    let a = pages.map_values(|pg: Seq<ControlView>| page_value(pg));
    assert forall|i: int| 0 <= i < a.len() implies #[trigger] encodable(a[i]) by {
        let pg = pages[i];
        assert(page_fits(pg));
        let b = pg.map_values(|c: ControlView| control_value(c));
        assert forall|j: int| 0 <= j < b.len() implies #[trigger] encodable(b[j]) by {
            assert(control_fits(pg[j]));
            lemma_control_encodable(pg[j]);
        }
        lemma_encodable_list(b);
    }
    lemma_encodable_list(a);
    match nica_value(pages) {
        SpecValue::Mapping(ps) => lemma_encodable_pairs(ps),
        _ => {},
    }
}

/// A MessagePack chunk body written for a map reads back as that map.
proof fn lemma_chunk_map(ps: Seq<(Seq<char>, SpecValue)>)
    requires
        encodable(SpecValue::Mapping(ps)),
    ensures
        spec_chunk_map(versioned(spec_encode(SpecValue::Mapping(ps)))) == Ok::<_, NksfError>(ps),
{
    let v = SpecValue::Mapping(ps);
    let body = versioned(spec_encode(v));
    lemma_le_bytes_len(1, 4);
    assert(body.skip(4) =~= spec_encode(v) + Seq::<u8>::empty());
    law_decode_encode(v, Seq::<u8>::empty());
}


// ---------------------------------------------------------------------------
// Reading back what was written
// ---------------------------------------------------------------------------

proof fn lemma_nisi_keys_distinct()
    ensures
        k_author() != k_name(),
        k_vendor() != k_name(),
        k_vendor() != k_author(),
        k_comment() != k_name(),
        k_comment() != k_author(),
        k_comment() != k_vendor(),
        k_device_type() != k_name(),
        k_device_type() != k_author(),
        k_device_type() != k_vendor(),
        k_device_type() != k_comment(),
        k_bankchain() != k_name(),
        k_bankchain() != k_author(),
        k_bankchain() != k_vendor(),
        k_bankchain() != k_comment(),
        k_bankchain() != k_device_type(),
        k_bankchain() != k_uuid(),
        k_types() != k_name(),
        k_types() != k_author(),
        k_types() != k_vendor(),
        k_types() != k_comment(),
        k_types() != k_device_type(),
        k_types() != k_uuid(),
        k_types() != k_bankchain(),
        k_types() != k_modes(),
        k_modes() != k_name(),
        k_modes() != k_author(),
        k_modes() != k_vendor(),
        k_modes() != k_comment(),
        k_modes() != k_device_type(),
        k_modes() != k_uuid(),
        k_modes() != k_bankchain(),
        k_uuid() != k_name(),
        k_uuid() != k_author(),
        k_uuid() != k_vendor(),
        k_uuid() != k_comment(),
        k_uuid() != k_device_type(),
{
    reveal_strlit("name");
    reveal_strlit("author");
    reveal_strlit("vendor");
    reveal_strlit("comment");
    reveal_strlit("deviceType");
    reveal_strlit("bankchain");
    reveal_strlit("types");
    reveal_strlit("modes");
    reveal_strlit("uuid");
    assert(k_name().len() == 4);
    assert(k_author().len() == 6);
    assert(k_vendor().len() == 6);
    assert(k_comment().len() == 7);
    assert(k_device_type().len() == 10);
    assert(k_bankchain().len() == 9);
    assert(k_types().len() == 5);
    assert(k_modes().len() == 5);
    assert(k_uuid().len() == 4);
    assert(k_author()[0] != k_vendor()[0]);
    assert(k_uuid()[0] != k_name()[0]);
    assert(k_types()[0] != k_modes()[0]);
}

proof fn lemma_plid_keys_distinct()
    ensures
        k_vst3_uid() != k_clap_id(),
        k_vst3_uid() != k_vst_magic(),
        k_vst_magic() != k_clap_id(),
{
    reveal_strlit("CLAP.id");
    reveal_strlit("VST3.uid");
    reveal_strlit("VST.magic");
    assert(k_clap_id().len() == 7);
    assert(k_vst3_uid().len() == 8);
    assert(k_vst_magic().len() == 9);
}

proof fn lemma_control_keys_distinct()
    ensures
        k_name() != k_id(),
        k_section() != k_id(),
        k_section() != k_name(),
        k_autoname() != k_id(),
        k_autoname() != k_name(),
        k_autoname() != k_section(),
        k_vflag() != k_id(),
        k_vflag() != k_name(),
        k_vflag() != k_section(),
        k_vflag() != k_autoname(),
{
    reveal_strlit("id");
    reveal_strlit("name");
    reveal_strlit("section");
    reveal_strlit("autoname");
    reveal_strlit("vflag");
    assert(k_id().len() == 2);
    assert(k_name().len() == 4);
    assert(k_section().len() == 7);
    assert(k_autoname().len() == 8);
    assert(k_vflag().len() == 5);
}

proof fn lemma_fold_strs(l: Seq<Seq<char>>)
    ensures
        fold_res(str_values(l), Seq::empty(), push_str_step()) == Ok::<_, NksfError>(l),
    decreases l.len(),
{
    if l.len() == 0 {
        assert(l =~= Seq::<Seq<char>>::empty());
    } else {
        lemma_fold_strs(l.drop_last());
        assert(str_values(l).drop_last() =~= str_values(l.drop_last()));
        assert(l.drop_last().push(l.last()) =~= l);
    }
}

pub open spec fn types_values(t: Seq<Seq<Seq<char>>>) -> Seq<SpecValue> {
    t.map_values(|p: Seq<Seq<char>>| SpecValue::Arr(str_values(p)))
}

proof fn lemma_fold_types(t: Seq<Seq<Seq<char>>>)
    ensures
        fold_res(types_values(t), Seq::empty(), push_str_list_step()) == Ok::<_, NksfError>(t),
    decreases t.len(),
{
    if t.len() == 0 {
        assert(t =~= Seq::<Seq<Seq<char>>>::empty());
    } else {
        lemma_fold_types(t.drop_last());
        lemma_fold_strs(t.last());
        assert(types_values(t).drop_last() =~= types_values(t.drop_last()));
        assert(t.drop_last().push(t.last()) =~= t);
    }
}

pub open spec fn word_values(u: Seq<i32>) -> Seq<SpecValue> {
    u.map_values(|w: i32| SpecValue::Int(w as i64))
}

proof fn lemma_fold_words(u: Seq<i32>)
    ensures
        fold_res(word_values(u), Seq::empty(), push_i32_step()) == Ok::<_, NksfError>(u),
    decreases u.len(),
{
    if u.len() == 0 {
        assert(u =~= Seq::<i32>::empty());
    } else {
        lemma_fold_words(u.drop_last());
        assert(word_values(u).drop_last() =~= word_values(u.drop_last()));
        assert(u.drop_last().push(u.last()) =~= u);
    }
}

proof fn lemma_fold_start<A, M>(s: Seq<A>, init: M, f: spec_fn(M, A) -> Result<M, NksfError>)
    ensures
        fold_res(s.take(0), init, f) == Ok::<M, NksfError>(init),
{
    assert(s.take(0) =~= Seq::<A>::empty());
}

proof fn lemma_decode_control(c: ControlView)
    ensures
        spec_decode_control(control_value(c)) == Ok::<_, NksfError>(c),
{
    lemma_control_keys_distinct();
    let ps = seq![
        (k_id(), SpecValue::Str(c.id)),
        (k_name(), SpecValue::Str(c.name)),
        (k_section(), SpecValue::Str(c.section)),
        (k_autoname(), SpecValue::Bool(c.autoname)),
        (k_vflag(), SpecValue::Bool(c.vflag)),
    ];
    assert(control_value(c) == SpecValue::Mapping(ps));
    let f = control_step();
    let c0 = empty_control();
    lemma_fold_start(ps, c0, f);
    lemma_fold_step(ps, 0, c0, f);
    assert(fold_res(ps.take(1), c0, f) == Ok::<_, NksfError>(ControlView { id: c.id, ..c0 }));
    lemma_fold_step(ps, 1, c0, f);
    assert(fold_res(ps.take(2), c0, f) == Ok::<_, NksfError>(ControlView { id: c.id, name: c.name, ..c0 }));
    lemma_fold_step(ps, 2, c0, f);
    assert(fold_res(ps.take(3), c0, f) == Ok::<_, NksfError>(ControlView { id: c.id, name: c.name, section: c.section, ..c0 }));
    lemma_fold_step(ps, 3, c0, f);
    assert(fold_res(ps.take(4), c0, f) == Ok::<_, NksfError>(ControlView { vflag: false, ..c }));
    lemma_fold_step(ps, 4, c0, f);
    assert(fold_res(ps.take(5), c0, f) == Ok::<_, NksfError>(c));
    lemma_fold_all(ps, c0, f);
}

pub open spec fn control_values(page: Seq<ControlView>) -> Seq<SpecValue> {
    page.map_values(|c: ControlView| control_value(c))
}

proof fn lemma_fold_page(page: Seq<ControlView>)
    ensures
        fold_res(control_values(page), Seq::empty(), push_control_step()) == Ok::<_, NksfError>(page),
    decreases page.len(),
{
    if page.len() == 0 {
        assert(page =~= Seq::<ControlView>::empty());
    } else {
        lemma_fold_page(page.drop_last());
        lemma_decode_control(page.last());
        assert(control_values(page).drop_last() =~= control_values(page.drop_last()));
        assert(page.drop_last().push(page.last()) =~= page);
    }
}

pub open spec fn page_values(pages: Seq<Seq<ControlView>>) -> Seq<SpecValue> {
    pages.map_values(|pg: Seq<ControlView>| page_value(pg))
}

proof fn lemma_fold_pages(pages: Seq<Seq<ControlView>>)
    ensures
        fold_res(page_values(pages), Seq::empty(), push_page_step()) == Ok::<_, NksfError>(pages),
    decreases pages.len(),
{
    if pages.len() == 0 {
        assert(pages =~= Seq::<Seq<ControlView>>::empty());
    } else {
        lemma_fold_pages(pages.drop_last());
        lemma_fold_page(pages.last());
        assert(page_value(pages.last()) == SpecValue::Arr(control_values(pages.last())));
        assert(page_values(pages).drop_last() =~= page_values(pages.drop_last()));
        assert(pages.drop_last().push(pages.last()) =~= pages);
    }
}

proof fn lemma_decode_nisi(m: MetaView)
    requires
        meta_fits(m),
    ensures
        spec_decode_nisi(versioned(spec_encode(nisi_value(m)))) == Ok::<_, NksfError>(m),
{
    lemma_nisi_keys_distinct();
    lemma_nisi_encodable(m);
    let ps = seq![
        (k_name(), SpecValue::Str(m.name)),
        (k_author(), SpecValue::Str(m.author)),
        (k_vendor(), SpecValue::Str(m.vendor)),
        (k_comment(), SpecValue::Str(m.comment)),
        (k_device_type(), SpecValue::Str(m.device_type)),
        (k_bankchain(), SpecValue::Arr(str_values(m.bankchain))),
        (k_types(), SpecValue::Arr(types_values(m.types))),
        (k_modes(), SpecValue::Arr(str_values(m.modes))),
        (k_uuid(), SpecValue::Str(m.uuid)),
    ];
    assert(nisi_value(m) == SpecValue::Mapping(ps));
    lemma_chunk_map(ps);
    lemma_fold_strs(m.bankchain);
    lemma_fold_strs(m.modes);
    lemma_fold_types(m.types);
    let f = nisi_step();
    let m0 = empty_meta();
    lemma_fold_start(ps, m0, f);
    lemma_fold_step(ps, 0, m0, f);
    let m1 = MetaView { name: m.name, ..m0 };
    assert(fold_res(ps.take(1), m0, f) == Ok::<_, NksfError>(m1));
    lemma_fold_step(ps, 1, m0, f);
    let m2 = MetaView { author: m.author, ..m1 };
    assert(fold_res(ps.take(2), m0, f) == Ok::<_, NksfError>(m2));
    lemma_fold_step(ps, 2, m0, f);
    let m3 = MetaView { vendor: m.vendor, ..m2 };
    assert(fold_res(ps.take(3), m0, f) == Ok::<_, NksfError>(m3));
    lemma_fold_step(ps, 3, m0, f);
    let m4 = MetaView { comment: m.comment, ..m3 };
    assert(fold_res(ps.take(4), m0, f) == Ok::<_, NksfError>(m4));
    lemma_fold_step(ps, 4, m0, f);
    let m5 = MetaView { device_type: m.device_type, ..m4 };
    assert(fold_res(ps.take(5), m0, f) == Ok::<_, NksfError>(m5));
    lemma_fold_step(ps, 5, m0, f);
    let m6 = MetaView { bankchain: m.bankchain, ..m5 };
    assert(fold_res(ps.take(6), m0, f) == Ok::<_, NksfError>(m6));
    lemma_fold_step(ps, 6, m0, f);
    let m7 = MetaView { types: m.types, ..m6 };
    assert(fold_res(ps.take(7), m0, f) == Ok::<_, NksfError>(m7));
    lemma_fold_step(ps, 7, m0, f);
    let m8 = MetaView { modes: m.modes, ..m7 };
    assert(fold_res(ps.take(8), m0, f) == Ok::<_, NksfError>(m8));
    lemma_fold_step(ps, 8, m0, f);
    assert(fold_res(ps.take(9), m0, f) == Ok::<_, NksfError>(m));
    lemma_fold_all(ps, m0, f);
}

/// Entries for the ids that are present, in the order `plid_value` writes them.
proof fn lemma_fold_concat<A, M>(s: Seq<A>, t: Seq<A>, init: M, f: spec_fn(M, A) -> Result<M, NksfError>)
    ensures
        fold_res(s + t, init, f) == match fold_res(s, init, f) {
            Ok(m) => fold_res(t, m, f),
            Err(e) => Err(e),
        },
    decreases t.len(),
{
    if t.len() == 0 {
        assert(s + t =~= s);
    } else {
        lemma_fold_concat(s, t.drop_last(), init, f);
        assert((s + t).drop_last() =~= s + t.drop_last());
        assert((s + t).last() == t.last());
    }
}

proof fn lemma_fold_one<A, M>(x: A, init: M, f: spec_fn(M, A) -> Result<M, NksfError>)
    ensures
        fold_res(seq![x], init, f) == f(init, x),
{
    assert(seq![x].drop_last() =~= Seq::<A>::empty());
    assert(fold_res(Seq::<A>::empty(), init, f) == Ok::<M, NksfError>(init));
    assert(seq![x].last() == x);
}

proof fn lemma_decode_plid(p: PlidView)
    requires
        plid_fits(p),
    ensures
        spec_decode_plid(versioned(spec_encode(plid_value(p)))) == Ok::<_, NksfError>(p),
{
    lemma_plid_keys_distinct();
    lemma_plid_encodable(p);
    let a: Seq<(Seq<char>, SpecValue)> = match p.clap_id {
        Some(id) => seq![(k_clap_id(), SpecValue::Str(id))],
        None => Seq::empty(),
    };
    let b: Seq<(Seq<char>, SpecValue)> = match p.vst3_uid {
        Some(u) => seq![(k_vst3_uid(), SpecValue::Arr(word_values(u)))],
        None => Seq::empty(),
    };
    let c: Seq<(Seq<char>, SpecValue)> = match p.vst_magic {
        Some(mg) => seq![(k_vst_magic(), SpecValue::Int(mg as i64))],
        None => Seq::empty(),
    };
    assert(plid_value(p) == SpecValue::Mapping(a + b + c));
    lemma_chunk_map(a + b + c);
    let f = plid_step();
    let p0 = empty_plid();
    lemma_fold_concat(a + b, c, p0, f);
    lemma_fold_concat(a, b, p0, f);
    let p1 = PlidView { clap_id: p.clap_id, ..p0 };
    match p.clap_id {
        Some(id) => lemma_fold_one((k_clap_id(), SpecValue::Str(id)), p0, f),
        None => {},
    }
    assert(fold_res(a, p0, f) == Ok::<_, NksfError>(p1));
    let p2 = PlidView { vst3_uid: p.vst3_uid, ..p1 };
    match p.vst3_uid {
        Some(u) => {
            lemma_fold_words(u);
            lemma_fold_one((k_vst3_uid(), SpecValue::Arr(word_values(u))), p1, f);
        },
        None => {},
    }
    assert(fold_res(b, p1, f) == Ok::<_, NksfError>(p2));
    match p.vst_magic {
        Some(mg) => lemma_fold_one((k_vst_magic(), SpecValue::Int(mg as i64)), p2, f),
        None => {},
    }
    assert(fold_res(c, p2, f) == Ok::<_, NksfError>(p));
}

proof fn lemma_decode_nica(pages: Seq<Seq<ControlView>>)
    requires
        pages_fit(pages),
    ensures
        spec_decode_nica(versioned(spec_encode(nica_value(pages)))) == Ok::<_, NksfError>(pages),
{
    lemma_nica_encodable(pages);
    if pages.len() == 0 {
        lemma_chunk_map(Seq::empty());
        assert(pages =~= Seq::<Seq<ControlView>>::empty());
    } else {
        let ps = seq![(k_ni8(), SpecValue::Arr(page_values(pages)))];
        assert(nica_value(pages) == SpecValue::Mapping(ps));
        lemma_chunk_map(ps);
        lemma_fold_pages(pages);
    }
}

proof fn lemma_tags_distinct()
    ensures
        nica_tag() != nisi_tag(),
        plid_tag() != nisi_tag(),
        plid_tag() != nica_tag(),
        pchk_tag() != nisi_tag(),
        pchk_tag() != nica_tag(),
        pchk_tag() != plid_tag(),
{
    assert(nica_tag()[2] != nisi_tag()[2]);
    assert(plid_tag()[0] != nisi_tag()[0]);
    assert(plid_tag()[0] != nica_tag()[0]);
    assert(pchk_tag()[0] != nisi_tag()[0]);
    assert(pchk_tag()[0] != nica_tag()[0]);
    assert(pchk_tag()[1] != plid_tag()[1]);
}

proof fn lemma_header(p: ParsedView)
    ensures
        nksf_bytes(p).len() == 12 + inner_bytes(p).len(),
        nksf_bytes(p).subrange(0, 4) == riff_tag(),
        le_value(nksf_bytes(p).subrange(4, 8)) == (4 + inner_bytes(p).len()) % 0x1_0000_0000,
        nksf_bytes(p).subrange(8, 12) == niks_tag(),
        nksf_bytes(p).skip(12) == inner_bytes(p),
{
    lemma_pow256_values();
    let n = (4 + inner_bytes(p).len()) % 0x1_0000_0000;
    lemma_le_bytes_len(n, 4);
    lemma_le_roundtrip(n, 4);
    let b = nksf_bytes(p);
    assert(b.subrange(0, 4) =~= riff_tag());
    assert(b.subrange(4, 8) =~= le_bytes(n, 4));
    assert(b.subrange(8, 12) =~= niks_tag());
    assert(b.skip(12) =~= inner_bytes(p));
}

/// What `encode` writes is a RIFF form of type `NIKS` whose size field is
/// the number of bytes after it, holding the chunks NISI, NICA, PLID and
/// PCHK in that order; PCHK carries the plugin state byte for byte. This
/// holds of every preset whose chunk bodies fit a 32-bit chunk size.
#[verifier::rlimit(40)]
pub proof fn law_container_shape(p: ParsedView)
    requires
        chunks_fit(p),
    ensures
        nksf_bytes(p).subrange(0, 4) == riff_tag(),
        nksf_bytes(p).subrange(8, 12) == niks_tag(),
        nksf_bytes(p).len() < 0x1_0000_0000 + 8 ==>
            le_value(nksf_bytes(p).subrange(4, 8)) == nksf_bytes(p).len() - 8,
        walk(nksf_bytes(p).skip(12)) == Ok::<_, NksfError>(seq![
            (nisi_tag(), nisi_body(p)),
            (nica_tag(), nica_body(p)),
            (plid_tag(), plid_body(p)),
            (pchk_tag(), p.pchk),
        ]),
{
    lemma_header(p);
    lemma_walk_inner(p);
    let n = nksf_bytes(p).len();
    assert(n == 12 + inner_bytes(p).len());
    assert(n < 0x1_0000_0000 + 8 ==> (4 + inner_bytes(p).len()) % 0x1_0000_0000 == n - 8);
}

pub open spec fn written_chunks(p: ParsedView) -> Seq<(Seq<u8>, Seq<u8>)> {
    seq![
        (nisi_tag(), nisi_body(p)),
        (nica_tag(), nica_body(p)),
        (plid_tag(), plid_body(p)),
        (pchk_tag(), p.pchk),
    ]
}

proof fn lemma_find_written(p: ParsedView)
    ensures
        find_chunk(written_chunks(p), nisi_tag()) == Some(nisi_body(p)),
        find_chunk(written_chunks(p), nica_tag()) == Some(nica_body(p)),
        find_chunk(written_chunks(p), plid_tag()) == Some(plid_body(p)),
        find_chunk(written_chunks(p), pchk_tag()) == Some(p.pchk),
{
    lemma_tags_distinct();
    let cs = written_chunks(p);
    let c1 = cs.drop_first();
    let c2 = c1.drop_first();
    let c3 = c2.drop_first();
    assert(c1 =~= seq![(nica_tag(), nica_body(p)), (plid_tag(), plid_body(p)), (pchk_tag(), p.pchk)]);
    assert(c2 =~= seq![(plid_tag(), plid_body(p)), (pchk_tag(), p.pchk)]);
    assert(c3 =~= seq![(pchk_tag(), p.pchk)]);
    assert(find_chunk(c3, pchk_tag()) == Some(p.pchk));
    assert(find_chunk(c2, pchk_tag()) == Some(p.pchk));
    assert(find_chunk(c1, pchk_tag()) == Some(p.pchk));
    assert(find_chunk(c2, plid_tag()) == Some(plid_body(p)));
    assert(find_chunk(c1, plid_tag()) == Some(plid_body(p)));
    assert(find_chunk(c1, nica_tag()) == Some(nica_body(p)));
}

proof fn lemma_parse_written(p: ParsedView)
    requires
        preset_fits(p),
    ensures
        spec_parse_chunks(written_chunks(p)) == Ok::<_, NksfError>(p),
{
    lemma_find_written(p);
    lemma_decode_nisi(p.meta);
    lemma_decode_plid(p.plugin_id);
    lemma_decode_nica(p.remote_controls);
}

/// Parsing what `encode` writes gives the preset back, for every preset
/// whose strings and lists fit the format's 16-bit lengths and whose chunk
/// bodies fit a 32-bit chunk size.
pub proof fn law_parse_encode(p: ParsedView)
    requires
        preset_fits(p),
    ensures
        spec_parse(nksf_bytes(p)) == Ok::<_, NksfError>(p),
{
    lemma_header(p);
    lemma_walk_inner(p);
    assert(walk(nksf_bytes(p).skip(12)) == Ok::<_, NksfError>(written_chunks(p)));
    lemma_parse_written(p);
}

/// How a chunk is laid out: its id, its body's length as a 32-bit
/// little-endian size, the body, and one zero pad byte after an odd-length
/// body (none after an even one), so that every chunk has even length.
pub proof fn law_chunk_layout(id: Seq<u8>, body: Seq<u8>)
    requires
        id.len() == 4,
        body.len() < 0x1_0000_0000,
    ensures
        chunk_bytes(id, body).subrange(0, 4) == id,
        le_value(chunk_bytes(id, body).subrange(4, 8)) == body.len(),
        chunk_bytes(id, body).subrange(8, 8 + body.len() as int) == body,
        chunk_bytes(id, body).len() == 8 + body.len() + body.len() % 2,
        body.len() % 2 == 1 ==> chunk_bytes(id, body)[8 + body.len() as int] == 0,
        chunk_bytes(id, body).len() % 2 == 0,
{
    lemma_pow256_values();
    let n = body.len();
    lemma_le_bytes_len(n, 4);
    lemma_le_roundtrip(n, 4);
    let c = chunk_bytes(id, body);
    assert(c.subrange(0, 4) =~= id);
    assert(c.subrange(4, 8) =~= le_bytes(n % 0x1_0000_0000, 4));
    assert(c.subrange(8, 8 + n as int) =~= body);
}

/// The chunk bodies `encode` writes: NISI, NICA and PLID each start with
/// the chunk version 1 as a 32-bit little-endian word, PCHK is the plugin
/// state itself; the four chunks follow the 12-byte RIFF header directly,
/// and the whole file has even length.
pub proof fn law_encoded_layout(p: ParsedView)
    requires
        chunks_fit(p),
    ensures
        nisi_body(p).subrange(0, 4) == seq![1u8, 0, 0, 0],
        nica_body(p).subrange(0, 4) == seq![1u8, 0, 0, 0],
        plid_body(p).subrange(0, 4) == seq![1u8, 0, 0, 0],
        nksf_bytes(p).skip(12) == chunk_bytes(nisi_tag(), nisi_body(p)) + chunk_bytes(nica_tag(), nica_body(p))
            + chunk_bytes(plid_tag(), plid_body(p)) + chunk_bytes(pchk_tag(), p.pchk),
        nksf_bytes(p).len() % 2 == 0,
{
    lemma_versioned_prefix(spec_encode(nisi_value(p.meta)));
    lemma_versioned_prefix(spec_encode(nica_value(p.remote_controls)));
    lemma_versioned_prefix(spec_encode(plid_value(p.plugin_id)));
    lemma_header(p);
    lemma_four_chunks_even(nisi_body(p), nica_body(p), plid_body(p), p.pchk);
}

proof fn lemma_four_chunks_even(a: Seq<u8>, b: Seq<u8>, c: Seq<u8>, d: Seq<u8>)
    requires
        a.len() < 0x1_0000_0000,
        b.len() < 0x1_0000_0000,
        c.len() < 0x1_0000_0000,
        d.len() < 0x1_0000_0000,
    ensures
        (chunk_bytes(nisi_tag(), a) + chunk_bytes(nica_tag(), b) + chunk_bytes(plid_tag(), c)
            + chunk_bytes(pchk_tag(), d)).len() % 2 == 0,
{
    let ca = chunk_bytes(nisi_tag(), a);
    let cb = chunk_bytes(nica_tag(), b);
    let cc = chunk_bytes(plid_tag(), c);
    let cd = chunk_bytes(pchk_tag(), d);
    law_chunk_layout(nisi_tag(), a);
    law_chunk_layout(nica_tag(), b);
    law_chunk_layout(plid_tag(), c);
    law_chunk_layout(pchk_tag(), d);
    let (x, y, z, w) = (ca.len() as int, cb.len() as int, cc.len() as int, cd.len() as int);
    assert((ca + cb + cc + cd).len() == x + y + z + w);
    assert((x + y + z + w) % 2 == 0) by (nonlinear_arith)
        requires
            x % 2 == 0,
            y % 2 == 0,
            z % 2 == 0,
            w % 2 == 0,
    ;
}

proof fn lemma_versioned_prefix(body: Seq<u8>)
    ensures
        versioned(body).subrange(0, 4) == seq![1u8, 0, 0, 0],
{
    assert(le_bytes(1, 4) =~= seq![1u8, 0, 0, 0]) by {
        reveal_with_fuel(le_bytes, 5);
    }
    assert(versioned(body).subrange(0, 4) =~= le_bytes(1, 4));
}

// ---------------------------------------------------------------------------
// Controller maps: each field under its own key
// ---------------------------------------------------------------------------

/// No key occurs twice.
pub open spec fn keys_distinct(p: Seq<(Seq<char>, SpecValue)>) -> bool {
    forall|a: int, b: int| 0 <= a < b < p.len() ==> p[a].0 != p[b].0
}

/// The controller field keys, as the literal texts of the format.
proof fn lemma_control_key_texts()
    ensures
        k_id() == "id"@,
        k_name() == "name"@,
        k_section() == "section"@,
        k_autoname() == "autoname"@,
        k_vflag() == "vflag"@,
        "id"@.len() == 2,
        "name"@.len() == 4,
        "section"@.len() == 7,
        "autoname"@.len() == 8,
        "vflag"@.len() == 5,
{
    reveal_strlit("id");
    reveal_strlit("name");
    reveal_strlit("section");
    reveal_strlit("autoname");
    reveal_strlit("vflag");
}

proof fn lemma_control_fields(p: Seq<(Seq<char>, SpecValue)>, c: ControlView)
    requires
        keys_distinct(p),
        fold_res(p, empty_control(), control_step()) == Ok::<_, NksfError>(c),
    ensures
        forall|j: int| 0 <= j < p.len() && p[j].0 == "autoname"@ ==> p[j].1 == SpecValue::Bool(c.autoname),
        forall|j: int| 0 <= j < p.len() && p[j].0 == "vflag"@ ==> p[j].1 == SpecValue::Bool(c.vflag),
        forall|j: int| 0 <= j < p.len() && p[j].0 == "id"@ && p[j].1 is Str ==> p[j].1 == SpecValue::Str(c.id),
        forall|j: int| 0 <= j < p.len() && p[j].0 == "name"@ && p[j].1 is Str ==> p[j].1 == SpecValue::Str(c.name),
        forall|j: int| 0 <= j < p.len() && p[j].0 == "section"@ && p[j].1 is Str ==> p[j].1 == SpecValue::Str(c.section),
        (forall|j: int| 0 <= j < p.len() ==> p[j].0 != "autoname"@) ==> !c.autoname,
        (forall|j: int| 0 <= j < p.len() ==> p[j].0 != "vflag"@) ==> !c.vflag,
    decreases p.len(),
{
    lemma_control_key_texts();
    if p.len() > 0 {
        let init = p.drop_last();
        let last = p.last();
        let f = control_step();
        match fold_res(init, empty_control(), f) {
            Ok(m) => {
                assert(keys_distinct(init)) by {
                    assert forall|a: int, b: int| 0 <= a < b < init.len() implies init[a].0 != init[b].0 by {
                        assert(init[a] == p[a] && init[b] == p[b]);
                    }
                }
                lemma_control_fields(init, m);
                assert(f(m, last) == Ok::<_, NksfError>(c));
                assert forall|j: int| 0 <= j < init.len() implies p[j].0 != last.0 by {
                    assert(p[p.len() - 1] == last);
                }
                assert forall|j: int| 0 <= j < p.len() && j < p.len() - 1 implies p[j] == init[j] by {}
            },
            Err(e) => {},
        }
    }
}

/// Reading a controller map takes each field from its own key, whatever
/// the order of the entries and whatever other keys stand beside them:
/// the flags under "autoname" and "vflag", the strings under "id", "name"
/// and "section"; a flag whose key is missing reads as false. And the
/// writer puts each field of a controller under its own key.
pub proof fn law_control_fields_by_key(p: Seq<(Seq<char>, SpecValue)>, c: ControlView, d: ControlView)
    requires
        keys_distinct(p),
        spec_decode_control(SpecValue::Mapping(p)) == Ok::<_, NksfError>(c),
    ensures
        forall|j: int| 0 <= j < p.len() && p[j].0 == "autoname"@ ==> p[j].1 == SpecValue::Bool(c.autoname),
        forall|j: int| 0 <= j < p.len() && p[j].0 == "vflag"@ ==> p[j].1 == SpecValue::Bool(c.vflag),
        forall|j: int| 0 <= j < p.len() && p[j].0 == "id"@ && p[j].1 is Str ==> p[j].1 == SpecValue::Str(c.id),
        forall|j: int| 0 <= j < p.len() && p[j].0 == "name"@ && p[j].1 is Str ==> p[j].1 == SpecValue::Str(c.name),
        forall|j: int| 0 <= j < p.len() && p[j].0 == "section"@ && p[j].1 is Str ==> p[j].1 == SpecValue::Str(c.section),
        (forall|j: int| 0 <= j < p.len() ==> p[j].0 != "autoname"@) ==> !c.autoname,
        (forall|j: int| 0 <= j < p.len() ==> p[j].0 != "vflag"@) ==> !c.vflag,
        control_value(d) == SpecValue::Mapping(seq![
            ("id"@, SpecValue::Str(d.id)),
            ("name"@, SpecValue::Str(d.name)),
            ("section"@, SpecValue::Str(d.section)),
            ("autoname"@, SpecValue::Bool(d.autoname)),
            ("vflag"@, SpecValue::Bool(d.vflag)),
        ]),
{
    lemma_control_key_texts();
    lemma_control_fields(p, c);
}

} // verus!

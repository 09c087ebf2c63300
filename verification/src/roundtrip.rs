use vstd::prelude::*;

use crate::base64::{b64_char, b64_enc, lemma_b64_char_inv, lemma_b64_enc_len, lemma_b64_round_trip};
use crate::event::{
    wf_blist, wf_data, wf_event, wf_seal, wf_seallist, wf_signed, EventDataV, EventSealV, EventV,
    InceptionEventV, InceptionWitnessConfigV, InteractionEventV, KeyConfigV, ReceiptTransferableV,
    RotationEventV, SealV, SignedEventV, WitnessConfigV,
};
use crate::parse::{
    lemma_p_dec_complete, p_attsig, p_basic_text, p_blist, p_blist_items, p_body_icp, p_body_ixn,
    p_body_rot, p_body_vrc, p_event, p_id_text, p_lit, p_qb, p_qs, p_sap_text, p_seal, p_seallist,
    p_seallist_items, p_signed, p_sigs, p_slist, p_slist_items, p_stream,
};
use crate::prefix::{
    attsig_text, attsig_wf, basic_text, id_text, id_wf, sap_text, AttSigV, IdPrefV,
};
use crate::ser::{
    lit_adds, lit_cnfg, lit_cuts, lit_data, lit_dig, lit_head, lit_ilk_icp, lit_ilk_ixn,
    lit_ilk_rot, lit_ilk_vrc, lit_keys, lit_nxt, lit_prev, lit_qdata, lit_qdig, lit_qrb,
    lit_qseal, lit_qsith, lit_qtoad, lit_sdig, lit_sith, lit_sn, lit_spref, lit_wits, qb, qs,
    ser_blist, ser_blist_items, ser_body, ser_dec, ser_event, ser_ilk, ser_seal, ser_seallist,
    ser_seallist_items, ser_signed, ser_sigs, ser_slist, ser_slist_items,
};

verus! {

// The round-trip theorem: decoding inverts the canonical encoder. Each
// production gets a completeness lemma - if the input carries the canonical
// serialization of a value at a position, the parser returns exactly that
// value and stops exactly after it - and the lemmas compose up to whole
// signed-event streams. Serializations are left-associated concatenations, so
// each proof peels parts off from the right.

/// Splits knowledge about a concatenation: if `s` carries `a + b` at `i`, it
/// carries `a` at `i` and `b` right after.
pub proof fn lemma_split(s: Seq<u8>, i: int, a: Seq<u8>, b: Seq<u8>)
    requires
        0 <= i,
        i + a.len() + b.len() <= s.len(),
        s.subrange(i, i + a.len() + b.len()) == a + b,
    ensures
        s.subrange(i, i + a.len() as int) == a,
        s.subrange(i + a.len() as int, i + a.len() + b.len()) == b,
{
    let w = s.subrange(i, i + a.len() + b.len());
    assert forall|t: int| 0 <= t < a.len() implies s.subrange(i, i + a.len() as int)[t] == a[t] by {
        assert(w[t] == (a + b)[t]);
    }
    assert(s.subrange(i, i + a.len() as int) =~= a);
    assert forall|t: int|
        0 <= t < b.len() implies s.subrange(i + a.len() as int, i + a.len() + b.len())[t]
        == b[t] by {
        assert(w[a.len() + t] == (a + b)[a.len() + t]);
    }
    assert(s.subrange(i + a.len() as int, i + a.len() + b.len()) =~= b);
}

pub proof fn lemma_p_lit_complete(s: Seq<u8>, i: int, lit: Seq<u8>)
    requires
        0 <= i,
        i + lit.len() <= s.len(),
        s.subrange(i, i + lit.len() as int) == lit,
    ensures
        p_lit(s, i, lit) == Some(i + lit.len() as int),
{
}

/// A literal that differs at one visible position does not parse.
pub proof fn lemma_p_lit_mismatch(s: Seq<u8>, i: int, lit: Seq<u8>, t: int)
    requires
        0 <= i,
        0 <= t < lit.len(),
        i + t < s.len(),
        s[i + t] != lit[t],
    ensures
        p_lit(s, i, lit) is None,
{
    if i + lit.len() <= s.len() && s.subrange(i, i + lit.len() as int) == lit {
        assert(s[i + t] == s.subrange(i, i + lit.len() as int)[t]);
    }
}

pub proof fn lemma_id_text_len(p: IdPrefV)
    requires
        id_wf(p),
    ensures
        id_text(p).len() == 44,
{
    match p {
        IdPrefV::Basic(r) => lemma_b64_enc_len(r),
        IdPrefV::SelfAddressing(r) => lemma_b64_enc_len(r),
    }
}

pub proof fn lemma_p_sap_text_complete(s: Seq<u8>, i: int, raw: Seq<u8>)
    requires
        0 <= i,
        raw.len() == 32,
        i + 44 <= s.len(),
        s.subrange(i, i + 44) == sap_text(raw),
    ensures
        p_sap_text(s, i) == Some((raw, i + 44)),
{
    lemma_b64_enc_len(raw);
    lemma_b64_round_trip(raw);
    lemma_split(s, i, seq!['E' as u8], b64_enc(raw));
    assert(s[i] == s.subrange(i, i + 1)[0]);
    assert(s.subrange(i + 1, i + 44) == b64_enc(raw));
}

pub proof fn lemma_p_basic_text_complete(s: Seq<u8>, i: int, raw: Seq<u8>)
    requires
        0 <= i,
        raw.len() == 32,
        i + 44 <= s.len(),
        s.subrange(i, i + 44) == basic_text(raw),
    ensures
        p_basic_text(s, i) == Some((raw, i + 44)),
{
    lemma_b64_enc_len(raw);
    lemma_b64_round_trip(raw);
    lemma_split(s, i, seq!['D' as u8], b64_enc(raw));
    assert(s[i] == s.subrange(i, i + 1)[0]);
    assert(s.subrange(i + 1, i + 44) == b64_enc(raw));
}

pub proof fn lemma_p_id_text_complete(s: Seq<u8>, i: int, p: IdPrefV)
    requires
        0 <= i,
        id_wf(p),
        i + 44 <= s.len(),
        s.subrange(i, i + 44) == id_text(p),
    ensures
        p_id_text(s, i) == Some((p, i + 44)),
{
    match p {
        IdPrefV::Basic(raw) => {
            lemma_p_basic_text_complete(s, i, raw);
            assert(s[i] == s.subrange(i, i + 44)[0]);
        },
        IdPrefV::SelfAddressing(raw) => {
            lemma_p_sap_text_complete(s, i, raw);
            assert(s[i] == s.subrange(i, i + 44)[0]);
        },
    }
}

pub proof fn lemma_p_attsig_complete(s: Seq<u8>, i: int, a: AttSigV)
    requires
        0 <= i,
        attsig_wf(a),
        i + 88 <= s.len(),
        s.subrange(i, i + 88) == attsig_text(a),
    ensures
        p_attsig(s, i) == Some((a, i + 88)),
{
    lemma_b64_enc_len(a.sig);
    lemma_b64_round_trip(a.sig);
    lemma_b64_char_inv(a.index);
    lemma_split(s, i, seq!['A' as u8, b64_char(a.index)], b64_enc(a.sig));
    assert(s[i] == s.subrange(i, i + 2)[0]);
    assert(s[i + 1] == s.subrange(i, i + 2)[1]);
    assert(s.subrange(i + 2, i + 88) == b64_enc(a.sig));
}

pub proof fn lemma_p_qb_complete(s: Seq<u8>, i: int, k: Seq<u8>)
    requires
        0 <= i,
        k.len() == 32,
        i + 46 <= s.len(),
        s.subrange(i, i + 46) == qb(k),
    ensures
        p_qb(s, i) == Some((k, i + 46)),
{
    lemma_b64_enc_len(k);
    lemma_split(s, i, seq!['"' as u8] + basic_text(k), seq!['"' as u8]);
    lemma_split(s, i, seq!['"' as u8], basic_text(k));
    assert(s[i] == s.subrange(i, i + 1)[0]);
    assert(s[i + 45] == s.subrange(i + 45, i + 46)[0]);
    lemma_p_basic_text_complete(s, i + 1, k);
}

pub proof fn lemma_p_qs_complete(s: Seq<u8>, i: int, d: Seq<u8>)
    requires
        0 <= i,
        d.len() == 32,
        i + 46 <= s.len(),
        s.subrange(i, i + 46) == qs(d),
    ensures
        p_qs(s, i) == Some((d, i + 46)),
{
    lemma_b64_enc_len(d);
    lemma_split(s, i, seq!['"' as u8] + sap_text(d), seq!['"' as u8]);
    lemma_split(s, i, seq!['"' as u8], sap_text(d));
    assert(s[i] == s.subrange(i, i + 1)[0]);
    assert(s[i + 45] == s.subrange(i + 45, i + 46)[0]);
    lemma_p_sap_text_complete(s, i + 1, d);
}

pub proof fn lemma_p_blist_items_complete(s: Seq<u8>, i: int, ks: Seq<Seq<u8>>)
    requires
        0 <= i,
        ks.len() >= 1,
        wf_blist(ks),
        i + ser_blist_items(ks).len() + 1 <= s.len(),
        s.subrange(i, i + ser_blist_items(ks).len() as int) == ser_blist_items(ks),
        s[i + ser_blist_items(ks).len()] == ']' as u8,
    ensures
        p_blist_items(s, i) == Some((ks, i + ser_blist_items(ks).len() + 1)),
    decreases ks.len(),
{
    let items = ser_blist_items(ks);
    lemma_b64_enc_len(ks[0]);
    if ks.len() == 1 {
        assert(items == qb(ks[0]));
        lemma_p_qb_complete(s, i, ks[0]);
        assert(seq![ks[0]] =~= ks);
    } else {
        let rest = ser_blist_items(ks.skip(1));
        assert(items == qb(ks[0]) + seq![',' as u8] + rest);
        lemma_split(s, i, qb(ks[0]) + seq![',' as u8], rest);
        lemma_split(s, i, qb(ks[0]), seq![',' as u8]);
        lemma_p_qb_complete(s, i, ks[0]);
        assert(s[i + 46] == s.subrange(i + 46, i + 47)[0]);
        assert forall|t: int| 0 <= t < ks.skip(1).len() implies (#[trigger] ks.skip(1)[t]).len()
            == 32 by {
            assert(ks.skip(1)[t] == ks[t + 1]);
        }
        lemma_p_blist_items_complete(s, i + 47, ks.skip(1));
        assert(seq![ks[0]] + ks.skip(1) =~= ks);
    }
}

pub proof fn lemma_p_blist_complete(s: Seq<u8>, i: int, ks: Seq<Seq<u8>>)
    requires
        0 <= i,
        wf_blist(ks),
        i + ser_blist(ks).len() <= s.len(),
        s.subrange(i, i + ser_blist(ks).len() as int) == ser_blist(ks),
    ensures
        p_blist(s, i) == Some((ks, i + ser_blist(ks).len() as int)),
{
    let items = ser_blist_items(ks);
    lemma_split(s, i, seq!['[' as u8] + items, seq![']' as u8]);
    lemma_split(s, i, seq!['[' as u8], items);
    assert(s[i] == s.subrange(i, i + 1)[0]);
    assert(s[i + 1 + items.len()] == s.subrange(i + 1 + items.len(), i + 2 + items.len())[0]);
    if ks.len() == 0 {
        assert(items =~= Seq::<u8>::empty());
        assert(s[i + 1] == s.subrange(i + 1 + items.len(), i + 2 + items.len())[0]);
    } else {
        lemma_b64_enc_len(ks[0]);
        assert(s[i + 1] == s.subrange(i + 1, i + 1 + items.len() as int)[0]);
        assert(items[0] == qb(ks[0])[0]);
        assert(s[i + 1] == '"' as u8);
        lemma_p_blist_items_complete(s, i + 1, ks);
    }
}

pub proof fn lemma_p_slist_items_complete(s: Seq<u8>, i: int, ds: Seq<Seq<u8>>)
    requires
        0 <= i,
        ds.len() >= 1,
        wf_blist(ds),
        i + ser_slist_items(ds).len() + 1 <= s.len(),
        s.subrange(i, i + ser_slist_items(ds).len() as int) == ser_slist_items(ds),
        s[i + ser_slist_items(ds).len()] == ']' as u8,
    ensures
        p_slist_items(s, i) == Some((ds, i + ser_slist_items(ds).len() + 1)),
    decreases ds.len(),
{
    let items = ser_slist_items(ds);
    lemma_b64_enc_len(ds[0]);
    if ds.len() == 1 {
        assert(items == qs(ds[0]));
        lemma_p_qs_complete(s, i, ds[0]);
        assert(seq![ds[0]] =~= ds);
    } else {
        let rest = ser_slist_items(ds.skip(1));
        assert(items == qs(ds[0]) + seq![',' as u8] + rest);
        lemma_split(s, i, qs(ds[0]) + seq![',' as u8], rest);
        lemma_split(s, i, qs(ds[0]), seq![',' as u8]);
        lemma_p_qs_complete(s, i, ds[0]);
        assert(s[i + 46] == s.subrange(i + 46, i + 47)[0]);
        assert forall|t: int| 0 <= t < ds.skip(1).len() implies (#[trigger] ds.skip(1)[t]).len()
            == 32 by {
            assert(ds.skip(1)[t] == ds[t + 1]);
        }
        lemma_p_slist_items_complete(s, i + 47, ds.skip(1));
        assert(seq![ds[0]] + ds.skip(1) =~= ds);
    }
}

pub proof fn lemma_p_slist_complete(s: Seq<u8>, i: int, ds: Seq<Seq<u8>>)
    requires
        0 <= i,
        wf_blist(ds),
        i + ser_slist(ds).len() <= s.len(),
        s.subrange(i, i + ser_slist(ds).len() as int) == ser_slist(ds),
    ensures
        p_slist(s, i) == Some((ds, i + ser_slist(ds).len() as int)),
{
    let items = ser_slist_items(ds);
    lemma_split(s, i, seq!['[' as u8] + items, seq![']' as u8]);
    lemma_split(s, i, seq!['[' as u8], items);
    assert(s[i] == s.subrange(i, i + 1)[0]);
    assert(s[i + 1 + items.len()] == s.subrange(i + 1 + items.len(), i + 2 + items.len())[0]);
    if ds.len() == 0 {
        assert(items =~= Seq::<u8>::empty());
        assert(s[i + 1] == s.subrange(i + 1 + items.len(), i + 2 + items.len())[0]);
    } else {
        lemma_b64_enc_len(ds[0]);
        assert(s[i + 1] == s.subrange(i + 1, i + 1 + items.len() as int)[0]);
        assert(items[0] == qs(ds[0])[0]);
        assert(s[i + 1] == '"' as u8);
        lemma_p_slist_items_complete(s, i + 1, ds);
    }
}

pub proof fn lemma_p_seal_complete(s: Seq<u8>, i: int, x: SealV)
    requires
        0 <= i,
        wf_seal(x),
        i + ser_seal(x).len() <= s.len(),
        s.subrange(i, i + ser_seal(x).len() as int) == ser_seal(x),
    ensures
        p_seal(s, i) == Some((x, i + ser_seal(x).len() as int)),
{
    match x {
        SealV::Digest(d) => {
            lemma_b64_enc_len(d);
            lemma_split(s, i, lit_sdig() + sap_text(d), lit_qrb());
            lemma_split(s, i, lit_sdig(), sap_text(d));
            lemma_p_lit_complete(s, i, lit_sdig());
            lemma_p_sap_text_complete(s, i + 8, d);
            lemma_p_lit_complete(s, i + 52, lit_qrb());
        },
        SealV::Event(e) => {
            lemma_b64_enc_len(e.event_digest);
            lemma_id_text_len(e.prefix);
            assert(s[i + 2] == s.subrange(i, i + ser_seal(x).len() as int)[2]);
            assert(ser_seal(x)[2] == lit_spref()[2]);
            lemma_p_lit_mismatch(s, i, lit_sdig(), 2);
            lemma_split(s, i, lit_spref() + id_text(e.prefix) + lit_qdig() + sap_text(
                e.event_digest,
            ), lit_qrb());
            lemma_split(s, i, lit_spref() + id_text(e.prefix) + lit_qdig(), sap_text(
                e.event_digest,
            ));
            lemma_split(s, i, lit_spref() + id_text(e.prefix), lit_qdig());
            lemma_split(s, i, lit_spref(), id_text(e.prefix));
            assert((lit_spref() + id_text(e.prefix)).len() == 53);
            assert((lit_spref() + id_text(e.prefix) + lit_qdig()).len() == 62);
            assert((lit_spref() + id_text(e.prefix) + lit_qdig() + sap_text(
                e.event_digest,
            )).len() == 106);
            lemma_p_lit_complete(s, i, lit_spref());
            lemma_p_id_text_complete(s, i + 9, e.prefix);
            lemma_p_lit_complete(s, i + 53, lit_qdig());
            lemma_p_sap_text_complete(s, i + 62, e.event_digest);
            lemma_p_lit_complete(s, i + 106, lit_qrb());
            assert(EventSealV { prefix: e.prefix, event_digest: e.event_digest } =~~= e);
        },
    }
}

pub proof fn lemma_p_seallist_items_complete(s: Seq<u8>, i: int, ss: Seq<SealV>)
    requires
        0 <= i,
        ss.len() >= 1,
        wf_seallist(ss),
        i + ser_seallist_items(ss).len() + 1 <= s.len(),
        s.subrange(i, i + ser_seallist_items(ss).len() as int) == ser_seallist_items(ss),
        s[i + ser_seallist_items(ss).len()] == ']' as u8,
    ensures
        p_seallist_items(s, i) == Some((ss, i + ser_seallist_items(ss).len() + 1)),
    decreases ss.len(),
{
    let items = ser_seallist_items(ss);
    let n0 = ser_seal(ss[0]).len() as int;
    if ss.len() == 1 {
        assert(items == ser_seal(ss[0]));
        lemma_p_seal_complete(s, i, ss[0]);
        assert(seq![ss[0]] =~= ss);
    } else {
        let rest = ser_seallist_items(ss.skip(1));
        assert(items == ser_seal(ss[0]) + seq![',' as u8] + rest);
        lemma_split(s, i, ser_seal(ss[0]) + seq![',' as u8], rest);
        lemma_split(s, i, ser_seal(ss[0]), seq![',' as u8]);
        lemma_p_seal_complete(s, i, ss[0]);
        assert(s[i + n0] == s.subrange(i + n0, i + n0 + 1)[0]);
        assert forall|t: int| 0 <= t < ss.skip(1).len() implies wf_seal(#[trigger] ss.skip(1)[t]) by {
            assert(ss.skip(1)[t] == ss[t + 1]);
        }
        lemma_p_seallist_items_complete(s, i + n0 + 1, ss.skip(1));
        assert(seq![ss[0]] + ss.skip(1) =~= ss);
    }
}

pub proof fn lemma_p_seallist_complete(s: Seq<u8>, i: int, ss: Seq<SealV>)
    requires
        0 <= i,
        wf_seallist(ss),
        i + ser_seallist(ss).len() <= s.len(),
        s.subrange(i, i + ser_seallist(ss).len() as int) == ser_seallist(ss),
    ensures
        p_seallist(s, i) == Some((ss, i + ser_seallist(ss).len() as int)),
{
    let items = ser_seallist_items(ss);
    lemma_split(s, i, seq!['[' as u8] + items, seq![']' as u8]);
    lemma_split(s, i, seq!['[' as u8], items);
    assert(s[i] == s.subrange(i, i + 1)[0]);
    assert(s[i + 1 + items.len()] == s.subrange(i + 1 + items.len(), i + 2 + items.len())[0]);
    if ss.len() == 0 {
        assert(items =~= Seq::<u8>::empty());
        assert(s[i + 1] == s.subrange(i + 1 + items.len(), i + 2 + items.len())[0]);
    } else {
        assert(s[i + 1] == s.subrange(i + 1, i + 1 + items.len() as int)[0]);
        assert(items[0] == ser_seal(ss[0])[0]);
        assert(ser_seal(ss[0])[0] == '{' as u8) by {
            match ss[0] {
                SealV::Digest(_) => {},
                SealV::Event(_) => {},
            }
        }
        lemma_p_seallist_items_complete(s, i + 1, ss);
    }
}

#[verifier::rlimit(100)]
pub proof fn lemma_p_body_icp_complete(s: Seq<u8>, i: int, e: InceptionEventV)
    requires
        0 <= i,
        wf_data(EventDataV::Icp(e)),
        i + ser_body(EventDataV::Icp(e)).len() <= s.len(),
        s.subrange(i, i + ser_body(EventDataV::Icp(e)).len() as int) == ser_body(
            EventDataV::Icp(e),
        ),
    ensures
        p_body_icp(s, i) == Some(
            (EventDataV::Icp(e), i + ser_body(EventDataV::Icp(e)).len() as int),
        ),
{
    reveal(crate::parse::p_body_icp);
    reveal(crate::ser::ser_body);
    let x1 = lit_sith();
    let x2 = ser_dec(e.key_config.threshold as nat);
    let x3 = lit_keys();
    let x4 = ser_blist(e.key_config.public_keys);
    let x5 = lit_nxt();
    let x6 = sap_text(e.key_config.threshold_key_digest);
    let x7 = lit_qtoad();
    let x8 = ser_dec(e.witness_config.tally as nat);
    let x9 = lit_wits();
    let x10 = ser_blist(e.witness_config.initial_witnesses);
    let x11 = lit_cnfg();
    let x12 = ser_slist(e.inception_configuration);
    let l1 = x1;
    let l2 = l1 + x2;
    let l3 = l2 + x3;
    let l4 = l3 + x4;
    let l5 = l4 + x5;
    let l6 = l5 + x6;
    let l7 = l6 + x7;
    let l8 = l7 + x8;
    let l9 = l8 + x9;
    let l10 = l9 + x10;
    let l11 = l10 + x11;
    let whole = ser_body(EventDataV::Icp(e));
    assert(whole == l11 + x12);
    lemma_b64_enc_len(e.key_config.threshold_key_digest);
    let q1 = i + x1.len();
    let q2 = q1 + x2.len();
    let q3 = q2 + x3.len();
    let q4 = q3 + x4.len();
    let q5 = q4 + x5.len();
    let q6 = q5 + x6.len();
    let q7 = q6 + x7.len();
    let q8 = q7 + x8.len();
    let q9 = q8 + x9.len();
    let q10 = q9 + x10.len();
    let q11 = q10 + x11.len();
    let q12 = q11 + x12.len();
    lemma_split(s, i, l11, x12);
    lemma_split(s, i, l10, x11);
    lemma_split(s, i, l9, x10);
    lemma_split(s, i, l8, x9);
    lemma_split(s, i, l7, x8);
    lemma_split(s, i, l6, x7);
    lemma_split(s, i, l5, x6);
    lemma_split(s, i, l4, x5);
    lemma_split(s, i, l3, x4);
    lemma_split(s, i, l2, x3);
    lemma_split(s, i, l1, x2);
    lemma_p_lit_complete(s, i, x1);
    assert(s[q2] == s.subrange(q2, q3)[0]);
    lemma_p_dec_complete(s, q1, e.key_config.threshold);
    lemma_p_lit_complete(s, q2, x3);
    lemma_p_blist_complete(s, q3, e.key_config.public_keys);
    lemma_p_lit_complete(s, q4, x5);
    lemma_p_sap_text_complete(s, q5, e.key_config.threshold_key_digest);
    lemma_p_lit_complete(s, q6, x7);
    assert(s[q8] == s.subrange(q8, q9)[0]);
    lemma_p_dec_complete(s, q7, e.witness_config.tally);
    lemma_p_lit_complete(s, q8, x9);
    lemma_p_blist_complete(s, q9, e.witness_config.initial_witnesses);
    lemma_p_lit_complete(s, q10, x11);
    lemma_p_slist_complete(s, q11, e.inception_configuration);
    assert(InceptionEventV {
        key_config: KeyConfigV {
            threshold: e.key_config.threshold,
            public_keys: e.key_config.public_keys,
            threshold_key_digest: e.key_config.threshold_key_digest,
        },
        witness_config: InceptionWitnessConfigV {
            tally: e.witness_config.tally,
            initial_witnesses: e.witness_config.initial_witnesses,
        },
        inception_configuration: e.inception_configuration,
    } =~~= e);
}

#[verifier::rlimit(100)]
pub proof fn lemma_p_body_rot_complete(s: Seq<u8>, i: int, e: RotationEventV)
    requires
        0 <= i,
        wf_data(EventDataV::Rot(e)),
        i + ser_body(EventDataV::Rot(e)).len() <= s.len(),
        s.subrange(i, i + ser_body(EventDataV::Rot(e)).len() as int) == ser_body(
            EventDataV::Rot(e),
        ),
    ensures
        p_body_rot(s, i) == Some(
            (EventDataV::Rot(e), i + ser_body(EventDataV::Rot(e)).len() as int),
        ),
{
    reveal(crate::parse::p_body_rot);
    reveal(crate::ser::ser_body);
    let x1 = lit_prev();
    let x2 = sap_text(e.previous_event_hash);
    let x3 = lit_qsith();
    let x4 = ser_dec(e.key_config.threshold as nat);
    let x5 = lit_keys();
    let x6 = ser_blist(e.key_config.public_keys);
    let x7 = lit_nxt();
    let x8 = sap_text(e.key_config.threshold_key_digest);
    let x9 = lit_qtoad();
    let x10 = ser_dec(e.witness_config.tally as nat);
    let x11 = lit_cuts();
    let x12 = ser_blist(e.witness_config.prune);
    let x13 = lit_adds();
    let x14 = ser_blist(e.witness_config.graft);
    let x15 = lit_data();
    let x16 = ser_seallist(e.data);
    let l1 = x1;
    let l2 = l1 + x2;
    let l3 = l2 + x3;
    let l4 = l3 + x4;
    let l5 = l4 + x5;
    let l6 = l5 + x6;
    let l7 = l6 + x7;
    let l8 = l7 + x8;
    let l9 = l8 + x9;
    let l10 = l9 + x10;
    let l11 = l10 + x11;
    let l12 = l11 + x12;
    let l13 = l12 + x13;
    let l14 = l13 + x14;
    let l15 = l14 + x15;
    let whole = ser_body(EventDataV::Rot(e));
    assert(whole == l15 + x16);
    lemma_b64_enc_len(e.previous_event_hash);
    lemma_b64_enc_len(e.key_config.threshold_key_digest);
    let q1 = i + x1.len();
    let q2 = q1 + x2.len();
    let q3 = q2 + x3.len();
    let q4 = q3 + x4.len();
    let q5 = q4 + x5.len();
    let q6 = q5 + x6.len();
    let q7 = q6 + x7.len();
    let q8 = q7 + x8.len();
    let q9 = q8 + x9.len();
    let q10 = q9 + x10.len();
    let q11 = q10 + x11.len();
    let q12 = q11 + x12.len();
    let q13 = q12 + x13.len();
    let q14 = q13 + x14.len();
    let q15 = q14 + x15.len();
    lemma_split(s, i, l15, x16);
    lemma_split(s, i, l14, x15);
    lemma_split(s, i, l13, x14);
    lemma_split(s, i, l12, x13);
    lemma_split(s, i, l11, x12);
    lemma_split(s, i, l10, x11);
    lemma_split(s, i, l9, x10);
    lemma_split(s, i, l8, x9);
    lemma_split(s, i, l7, x8);
    lemma_split(s, i, l6, x7);
    lemma_split(s, i, l5, x6);
    lemma_split(s, i, l4, x5);
    lemma_split(s, i, l3, x4);
    lemma_split(s, i, l2, x3);
    lemma_split(s, i, l1, x2);
    lemma_p_lit_complete(s, i, x1);
    lemma_p_sap_text_complete(s, q1, e.previous_event_hash);
    lemma_p_lit_complete(s, q2, x3);
    assert(s[q4] == s.subrange(q4, q5)[0]);
    lemma_p_dec_complete(s, q3, e.key_config.threshold);
    lemma_p_lit_complete(s, q4, x5);
    lemma_p_blist_complete(s, q5, e.key_config.public_keys);
    lemma_p_lit_complete(s, q6, x7);
    lemma_p_sap_text_complete(s, q7, e.key_config.threshold_key_digest);
    lemma_p_lit_complete(s, q8, x9);
    assert(s[q10] == s.subrange(q10, q11)[0]);
    lemma_p_dec_complete(s, q9, e.witness_config.tally);
    lemma_p_lit_complete(s, q10, x11);
    lemma_p_blist_complete(s, q11, e.witness_config.prune);
    lemma_p_lit_complete(s, q12, x13);
    lemma_p_blist_complete(s, q13, e.witness_config.graft);
    lemma_p_lit_complete(s, q14, x15);
    lemma_p_seallist_complete(s, q15, e.data);
    assert(RotationEventV {
        previous_event_hash: e.previous_event_hash,
        key_config: KeyConfigV {
            threshold: e.key_config.threshold,
            public_keys: e.key_config.public_keys,
            threshold_key_digest: e.key_config.threshold_key_digest,
        },
        witness_config: WitnessConfigV {
            tally: e.witness_config.tally,
            prune: e.witness_config.prune,
            graft: e.witness_config.graft,
        },
        data: e.data,
    } =~~= e);
}

pub proof fn lemma_p_body_ixn_complete(s: Seq<u8>, i: int, e: InteractionEventV)
    requires
        0 <= i,
        wf_data(EventDataV::Ixn(e)),
        i + ser_body(EventDataV::Ixn(e)).len() <= s.len(),
        s.subrange(i, i + ser_body(EventDataV::Ixn(e)).len() as int) == ser_body(
            EventDataV::Ixn(e),
        ),
    ensures
        p_body_ixn(s, i) == Some(
            (EventDataV::Ixn(e), i + ser_body(EventDataV::Ixn(e)).len() as int),
        ),
{
    reveal(crate::parse::p_body_ixn);
    reveal(crate::ser::ser_body);
    let x1 = lit_prev();
    let x2 = sap_text(e.previous_event_hash);
    let x3 = lit_qdata();
    let x4 = ser_seallist(e.data);
    let l1 = x1;
    let l2 = l1 + x2;
    let l3 = l2 + x3;
    let whole = ser_body(EventDataV::Ixn(e));
    assert(whole == l3 + x4);
    lemma_b64_enc_len(e.previous_event_hash);
    let q1 = i + x1.len();
    let q2 = q1 + x2.len();
    let q3 = q2 + x3.len();
    lemma_split(s, i, l3, x4);
    lemma_split(s, i, l2, x3);
    lemma_split(s, i, l1, x2);
    lemma_p_lit_complete(s, i, x1);
    lemma_p_sap_text_complete(s, q1, e.previous_event_hash);
    lemma_p_lit_complete(s, q2, x3);
    lemma_p_seallist_complete(s, q3, e.data);
    assert(InteractionEventV { previous_event_hash: e.previous_event_hash, data: e.data } =~~= e);
}

pub proof fn lemma_p_body_vrc_complete(s: Seq<u8>, i: int, e: ReceiptTransferableV)
    requires
        0 <= i,
        wf_data(EventDataV::Vrc(e)),
        i + ser_body(EventDataV::Vrc(e)).len() <= s.len(),
        s.subrange(i, i + ser_body(EventDataV::Vrc(e)).len() as int) == ser_body(
            EventDataV::Vrc(e),
        ),
    ensures
        p_body_vrc(s, i) == Some(
            (EventDataV::Vrc(e), i + ser_body(EventDataV::Vrc(e)).len() as int),
        ),
{
    reveal(crate::parse::p_body_vrc);
    reveal(crate::ser::ser_body);
    let x1 = lit_dig();
    let x2 = sap_text(e.receipted_event_digest);
    let x3 = lit_qseal();
    let x4 = id_text(e.validator_location_seal.prefix);
    let x5 = lit_qdig();
    let x6 = sap_text(e.validator_location_seal.event_digest);
    let x7 = lit_qrb();
    let l1 = x1;
    let l2 = l1 + x2;
    let l3 = l2 + x3;
    let l4 = l3 + x4;
    let l5 = l4 + x5;
    let l6 = l5 + x6;
    let whole = ser_body(EventDataV::Vrc(e));
    assert(whole == l6 + x7);
    lemma_b64_enc_len(e.receipted_event_digest);
    lemma_b64_enc_len(e.validator_location_seal.event_digest);
    lemma_id_text_len(e.validator_location_seal.prefix);
    let q1 = i + x1.len();
    let q2 = q1 + x2.len();
    let q3 = q2 + x3.len();
    let q4 = q3 + x4.len();
    let q5 = q4 + x5.len();
    let q6 = q5 + x6.len();
    lemma_split(s, i, l6, x7);
    lemma_split(s, i, l5, x6);
    lemma_split(s, i, l4, x5);
    lemma_split(s, i, l3, x4);
    lemma_split(s, i, l2, x3);
    lemma_split(s, i, l1, x2);
    lemma_p_lit_complete(s, i, x1);
    lemma_p_sap_text_complete(s, q1, e.receipted_event_digest);
    lemma_p_lit_complete(s, q2, x3);
    lemma_p_id_text_complete(s, q3, e.validator_location_seal.prefix);
    lemma_p_lit_complete(s, q4, x5);
    lemma_p_sap_text_complete(s, q5, e.validator_location_seal.event_digest);
    lemma_p_lit_complete(s, q6, x7);
    assert(ReceiptTransferableV {
        receipted_event_digest: e.receipted_event_digest,
        validator_location_seal: EventSealV {
            prefix: e.validator_location_seal.prefix,
            event_digest: e.validator_location_seal.event_digest,
        },
    } =~~= e);
}

#[verifier::rlimit(100)]
pub proof fn lemma_p_event_complete(s: Seq<u8>, i: int, e: EventV)
    requires
        0 <= i,
        wf_event(e),
        i + ser_event(e).len() <= s.len(),
        s.subrange(i, i + ser_event(e).len() as int) == ser_event(e),
    ensures
        p_event(s, i) == Some((e, i + ser_event(e).len() as int)),
{
    reveal(crate::ser::ser_event);
    let x1 = lit_head();
    let x2 = id_text(e.prefix);
    let x3 = lit_sn();
    let x4 = ser_dec(e.sn as nat);
    let x5 = ser_ilk(e.event_data);
    let x6 = ser_body(e.event_data);
    let x7 = seq!['}' as u8];
    let l1 = x1;
    let l2 = l1 + x2;
    let l3 = l2 + x3;
    let l4 = l3 + x4;
    let l5 = l4 + x5;
    let l6 = l5 + x6;
    let whole = ser_event(e);
    assert(whole == l6 + x7);
    lemma_id_text_len(e.prefix);
    let q1 = i + x1.len();
    let q2 = q1 + x2.len();
    let q3 = q2 + x3.len();
    let q4 = q3 + x4.len();
    let q5 = q4 + x5.len();
    let q6 = q5 + x6.len();
    lemma_split(s, i, l6, x7);
    lemma_split(s, i, l5, x6);
    lemma_split(s, i, l4, x5);
    lemma_split(s, i, l3, x4);
    lemma_split(s, i, l2, x3);
    lemma_split(s, i, l1, x2);
    lemma_p_lit_complete(s, i, x1);
    lemma_p_id_text_complete(s, q1, e.prefix);
    lemma_p_lit_complete(s, q2, x3);
    assert(s[q4] == s.subrange(q4, q5)[0]);
    assert(x5[0] == ',' as u8) by {
        match e.event_data {
            EventDataV::Icp(_) => {},
            EventDataV::Rot(_) => {},
            EventDataV::Ixn(_) => {},
            EventDataV::Vrc(_) => {},
        }
    }
    lemma_p_dec_complete(s, q3, e.sn);
    lemma_p_lit_complete(s, q4, x5);
    assert(s[q6] == s.subrange(q6, q6 + 1)[0]);
    match e.event_data {
        EventDataV::Icp(ev) => {
            lemma_p_body_icp_complete(s, q5, ev);
        },
        EventDataV::Rot(ev) => {
            assert(s[q4 + 8] == s.subrange(q4, q5)[8]);
            assert(s[q4 + 8] == lit_ilk_rot()[8]);
            lemma_p_lit_mismatch(s, q4, lit_ilk_icp(), 8);
            lemma_p_body_rot_complete(s, q5, ev);
        },
        EventDataV::Ixn(ev) => {
            assert(s[q4 + 8] == s.subrange(q4, q5)[8]);
            assert(s[q4 + 9] == s.subrange(q4, q5)[9]);
            assert(s[q4 + 8] == lit_ilk_ixn()[8]);
            assert(s[q4 + 9] == lit_ilk_ixn()[9]);
            lemma_p_lit_mismatch(s, q4, lit_ilk_icp(), 9);
            lemma_p_lit_mismatch(s, q4, lit_ilk_rot(), 8);
            lemma_p_body_ixn_complete(s, q5, ev);
        },
        EventDataV::Vrc(ev) => {
            assert(s[q4 + 8] == s.subrange(q4, q5)[8]);
            assert(s[q4 + 8] == lit_ilk_vrc()[8]);
            lemma_p_lit_mismatch(s, q4, lit_ilk_icp(), 8);
            lemma_p_lit_mismatch(s, q4, lit_ilk_rot(), 8);
            lemma_p_lit_mismatch(s, q4, lit_ilk_ixn(), 8);
            lemma_p_body_vrc_complete(s, q5, ev);
        },
    }
    assert(EventV { prefix: e.prefix, sn: e.sn, event_data: e.event_data } =~~= e);
}

pub proof fn lemma_p_sigs_complete(s: Seq<u8>, i: int, sigs: Seq<AttSigV>)
    requires
        0 <= i,
        forall|t: int| 0 <= t < sigs.len() ==> attsig_wf(#[trigger] sigs[t]),
        i + ser_sigs(sigs).len() <= s.len(),
        s.subrange(i, i + ser_sigs(sigs).len() as int) == ser_sigs(sigs),
    ensures
        p_sigs(s, i, sigs.len() as int) == Some((sigs, i + ser_sigs(sigs).len() as int)),
    decreases sigs.len(),
{
    if sigs.len() == 0 {
        assert(Seq::<AttSigV>::empty() =~= sigs);
    } else {
        let rest = ser_sigs(sigs.skip(1));
        assert(ser_sigs(sigs) == attsig_text(sigs[0]) + rest);
        lemma_b64_enc_len(sigs[0].sig);
        lemma_split(s, i, attsig_text(sigs[0]), rest);
        lemma_p_attsig_complete(s, i, sigs[0]);
        assert forall|t: int| 0 <= t < sigs.skip(1).len() implies attsig_wf(
            #[trigger] sigs.skip(1)[t],
        ) by {
            assert(sigs.skip(1)[t] == sigs[t + 1]);
        }
        lemma_p_sigs_complete(s, i + 88, sigs.skip(1));
        assert(seq![sigs[0]] + sigs.skip(1) =~= sigs);
    }
}

#[verifier::rlimit(100)]
pub proof fn lemma_p_signed_complete(s: Seq<u8>, i: int, v: SignedEventV)
    requires
        0 <= i,
        wf_signed(v),
        i + ser_signed(v).len() <= s.len(),
        s.subrange(i, i + ser_signed(v).len() as int) == ser_signed(v),
    ensures
        p_signed(s, i) == Some((v, i + ser_signed(v).len() as int)),
{
    let x1 = ser_event(v.event);
    let x2 = seq!['-' as u8, b64_char(v.signatures.len() as u8)];
    let x3 = ser_sigs(v.signatures);
    let l2 = x1 + x2;
    assert(ser_signed(v) == l2 + x3);
    let q1 = i + x1.len();
    let q2 = q1 + x2.len();
    lemma_split(s, i, l2, x3);
    lemma_split(s, i, x1, x2);
    lemma_p_event_complete(s, i, v.event);
    assert(s[q1] == s.subrange(q1, q2)[0]);
    assert(s[q1 + 1] == s.subrange(q1, q2)[1]);
    lemma_b64_char_inv(v.signatures.len() as u8);
    lemma_p_sigs_complete(s, q2, v.signatures);
    assert(SignedEventV { event: v.event, signatures: v.signatures } =~~= v);
}

// Whole streams: the concatenation of several signed events.

pub open spec fn ser_stream(vs: Seq<SignedEventV>) -> Seq<u8>
    decreases vs.len(),
{
    if vs.len() == 0 {
        Seq::empty()
    } else {
        ser_signed(vs[0]) + ser_stream(vs.skip(1))
    }
}

pub open spec fn wf_stream(vs: Seq<SignedEventV>) -> bool {
    forall|t: int| 0 <= t < vs.len() ==> wf_signed(#[trigger] vs[t])
}

#[verifier::rlimit(100)]
pub proof fn lemma_p_stream_complete(s: Seq<u8>, i: int, vs: Seq<SignedEventV>)
    requires
        0 <= i,
        wf_stream(vs),
        i + ser_stream(vs).len() == s.len(),
        s.subrange(i, s.len() as int) == ser_stream(vs),
    ensures
        p_stream(s, i) == Some((vs, s.len() as int)),
    decreases vs.len(),
{
    if vs.len() == 0 {
        assert(Seq::<SignedEventV>::empty() =~= vs);
    } else {
        let x1 = ser_signed(vs[0]);
        let rest = ser_stream(vs.skip(1));
        assert(ser_stream(vs) == x1 + rest);
        lemma_split(s, i, x1, rest);
        lemma_p_signed_complete(s, i, vs[0]);
        assert(x1.len() >= 1) by {
            assert(ser_event(vs[0].event).len() >= lit_head().len());
        }
        assert forall|t: int| 0 <= t < vs.skip(1).len() implies wf_signed(
            #[trigger] vs.skip(1)[t],
        ) by {
            assert(vs.skip(1)[t] == vs[t + 1]);
        }
        assert(s.subrange(i + x1.len() as int, s.len() as int) == rest);
        lemma_p_stream_complete(s, i + x1.len() as int, vs.skip(1));
        assert(seq![vs[0]] + vs.skip(1) =~= vs);
        assert(i != s.len());
    }
}

/// Serialization round trip: every well-formed signed event parses back,
/// exactly, from its own canonical bytes.
pub proof fn lemma_signed_round_trip(v: SignedEventV)
    requires
        wf_signed(v),
    ensures
        p_signed(ser_signed(v), 0) == Some((v, ser_signed(v).len() as int)),
{
    let s = ser_signed(v);
    assert(s.subrange(0, s.len() as int) =~= s);
    lemma_p_signed_complete(s, 0, v);
}

/// Serialization round trip at the event level.
pub proof fn lemma_event_round_trip(e: EventV)
    requires
        wf_event(e),
    ensures
        p_event(ser_event(e), 0) == Some((e, ser_event(e).len() as int)),
{
    let s = ser_event(e);
    assert(s.subrange(0, s.len() as int) =~= s);
    lemma_p_event_complete(s, 0, e);
}

/// Serialization round trip for concatenated signed events on the wire.
pub proof fn lemma_stream_round_trip(vs: Seq<SignedEventV>)
    requires
        wf_stream(vs),
    ensures
        p_stream(ser_stream(vs), 0) == Some((vs, ser_stream(vs).len() as int)),
{
    let s = ser_stream(vs);
    assert(s.subrange(0, s.len() as int) =~= s);
    lemma_p_stream_complete(s, 0, vs);
}

} // verus!

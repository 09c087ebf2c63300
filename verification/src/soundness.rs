use vstd::prelude::*;

use crate::base64::{b64_dec, b64_enc, lemma_b64_dec_enc, lemma_b64_inv_char};
use crate::event::{
    wf_blist, wf_data, wf_event, wf_seal, wf_seallist, wf_signed, EventDataV, SealV, SignedEventV,
};
use crate::parse::{
    dec_val, digit_run, is_digit, p_attsig, p_basic_text, p_blist, p_blist_items, p_body_icp,
    p_body_ixn, p_body_rot, p_body_vrc, p_dec, p_event, p_id_text, p_lit, p_qb, p_qs, p_sap_text,
    p_seal, p_seallist, p_seallist_items, p_signed, p_sigs, p_slist, p_slist_items,
};
use crate::prefix::{attsig_text, attsig_wf, basic_text, id_text, id_wf, sap_text, AttSigV, IdPrefV};
use crate::ser::{
    qb, qs, ser_blist, ser_blist_items, ser_body, ser_dec, ser_event, ser_ilk, ser_seal,
    ser_seallist, ser_seallist_items, ser_signed, ser_sigs, ser_slist, ser_slist_items,
};

verus! {

// The converse of the round-trip theorem: whatever the strict decoder
// accepts was the canonical serialization of what it returned. Together with
// completeness this makes the decoder exactly the inverse of the encoder, so
// a digest computed over accepted bytes on the receiver equals the digest the
// sender computed over its own canonical bytes.

/// Joining adjacent subranges.
pub proof fn lemma_join(s: Seq<u8>, i: int, j: int, k: int)
    requires
        0 <= i <= j <= k <= s.len(),
    ensures
        s.subrange(i, k) == s.subrange(i, j) + s.subrange(j, k),
{
    assert(s.subrange(i, k) =~= s.subrange(i, j) + s.subrange(j, k));
}

/// A nonzero-leading digit string has a positive value.
proof fn lemma_dec_val_positive(ds: Seq<u8>)
    requires
        ds.len() >= 1,
        forall|t: int| 0 <= t < ds.len() ==> is_digit(#[trigger] ds[t]),
        ds[0] != '0' as u8,
    ensures
        dec_val(ds) >= 1,
    decreases ds.len(),
{
    if ds.len() == 1 {
        assert(ds.drop_last() =~= Seq::<u8>::empty());
        assert(dec_val(Seq::<u8>::empty()) == 0);
        assert(ds.last() == ds[0]);
    } else {
        let dl = ds.drop_last();
        assert forall|t: int| 0 <= t < dl.len() implies is_digit(#[trigger] dl[t]) by {
            assert(dl[t] == ds[t]);
        }
        lemma_dec_val_positive(dl);
        assert(ds.last() - '0' as u8 >= 0);
    }
}

/// Decimal forms are unique: a canonical digit string with value `n` is the
/// decimal form of `n`.
proof fn lemma_dec_unique(ds: Seq<u8>, n: nat)
    requires
        ds.len() >= 1,
        forall|t: int| 0 <= t < ds.len() ==> is_digit(#[trigger] ds[t]),
        ds.len() > 1 ==> ds[0] != '0' as u8,
        dec_val(ds) == n,
    ensures
        ds == ser_dec(n),
    decreases ds.len(),
{
    if ds.len() == 1 {
        assert(ds.drop_last() =~= Seq::<u8>::empty());
        assert(dec_val(Seq::<u8>::empty()) == 0);
        assert(ds.last() == ds[0]);
        assert(n < 10);
        assert(ds =~= ser_dec(n));
    } else {
        let dl = ds.drop_last();
        let d = (ds.last() - '0' as u8) as int;
        assert forall|t: int| 0 <= t < dl.len() implies is_digit(#[trigger] dl[t]) by {
            assert(dl[t] == ds[t]);
        }
        lemma_dec_val_positive(dl);
        crate::parse::lemma_dec_val_bounds(dl, dl.len() as int);
        let q = dec_val(dl) as nat;
        assert(n == q * 10 + d);
        assert(q >= 1 && 0 <= d < 10);
        assert(n >= 10 && n / 10 == q && n % 10 == d) by (nonlinear_arith)
            requires
                n == q * 10 + d,
                q >= 1,
                0 <= d < 10,
        ;
        lemma_dec_unique(dl, q);
        assert(ds =~= ser_dec(n));
    }
}

/// The digit run really is made of digits.
proof fn lemma_digit_run_digits(s: Seq<u8>, i: int)
    requires
        0 <= i <= s.len(),
    ensures
        i + digit_run(s, i) <= s.len(),
        forall|t: int| 0 <= t < digit_run(s, i) ==> is_digit(#[trigger] s[i + t]),
    decreases s.len() - i,
{
    if i < s.len() && is_digit(s[i]) {
        lemma_digit_run_digits(s, i + 1);
        assert forall|t: int| 0 <= t < digit_run(s, i) implies is_digit(#[trigger] s[i + t]) by {
            if t > 0 {
                assert(is_digit(s[i + 1 + (t - 1)]));
            }
        }
    }
}

pub proof fn lemma_p_dec_sound(s: Seq<u8>, i: int, n: u64, j: int)
    requires
        0 <= i <= s.len(),
        p_dec(s, i) == Some((n, j)),
    ensures
        i < j <= s.len(),
        s.subrange(i, j) == ser_dec(n as nat),
{
    let r = digit_run(s, i);
    lemma_digit_run_digits(s, i);
    let ds = s.subrange(i, i + r);
    assert forall|t: int| 0 <= t < ds.len() implies is_digit(#[trigger] ds[t]) by {
        assert(ds[t] == s[i + t]);
    }
    assert(ds[0] == s[i + 0]);
    crate::parse::lemma_dec_val_bounds(ds, 0);
    assert(dec_val(ds) == n as int);
    lemma_dec_unique(ds, n as nat);
}

pub proof fn lemma_p_sap_text_sound(s: Seq<u8>, i: int, raw: Seq<u8>, j: int)
    requires
        0 <= i <= s.len(),
        p_sap_text(s, i) == Some((raw, j)),
    ensures
        i < j <= s.len(),
        raw.len() == 32,
        s.subrange(i, j) == sap_text(raw),
{
    lemma_b64_dec_enc(s.subrange(i + 1, i + 44));
    lemma_join(s, i, i + 1, i + 44);
    assert(s.subrange(i, i + 1) =~= seq![s[i]]);
    assert(s.subrange(i, i + 44) =~= seq!['E' as u8] + b64_enc(raw));
}

pub proof fn lemma_p_basic_text_sound(s: Seq<u8>, i: int, raw: Seq<u8>, j: int)
    requires
        0 <= i <= s.len(),
        p_basic_text(s, i) == Some((raw, j)),
    ensures
        i < j <= s.len(),
        raw.len() == 32,
        s.subrange(i, j) == basic_text(raw),
{
    lemma_b64_dec_enc(s.subrange(i + 1, i + 44));
    lemma_join(s, i, i + 1, i + 44);
    assert(s.subrange(i, i + 1) =~= seq![s[i]]);
    assert(s.subrange(i, i + 44) =~= seq!['D' as u8] + b64_enc(raw));
}

pub proof fn lemma_p_id_text_sound(s: Seq<u8>, i: int, p: IdPrefV, j: int)
    requires
        0 <= i <= s.len(),
        p_id_text(s, i) == Some((p, j)),
    ensures
        i < j <= s.len(),
        id_wf(p),
        s.subrange(i, j) == id_text(p),
{
    match p {
        IdPrefV::Basic(raw) => lemma_p_basic_text_sound(s, i, raw, j),
        IdPrefV::SelfAddressing(raw) => lemma_p_sap_text_sound(s, i, raw, j),
    }
}

pub proof fn lemma_p_attsig_sound(s: Seq<u8>, i: int, a: AttSigV, j: int)
    requires
        0 <= i <= s.len(),
        p_attsig(s, i) == Some((a, j)),
    ensures
        i < j <= s.len(),
        attsig_wf(a),
        s.subrange(i, j) == attsig_text(a),
{
    lemma_b64_dec_enc(s.subrange(i + 2, i + 88));
    lemma_b64_inv_char(s[i + 1]);
    lemma_join(s, i, i + 2, i + 88);
    assert(s.subrange(i, i + 2) =~= seq![s[i], s[i + 1]]);
    assert(s.subrange(i, i + 88) =~= seq!['A' as u8, crate::base64::b64_char(a.index)] + b64_enc(
        a.sig,
    ));
}

pub proof fn lemma_p_qb_sound(s: Seq<u8>, i: int, k: Seq<u8>, j: int)
    requires
        0 <= i <= s.len(),
        p_qb(s, i) == Some((k, j)),
    ensures
        i < j <= s.len(),
        k.len() == 32,
        s.subrange(i, j) == qb(k),
{
    lemma_p_basic_text_sound(s, i + 1, k, j - 1);
    lemma_join(s, i, i + 1, j - 1);
    lemma_join(s, i, j - 1, j);
    assert(s.subrange(i, i + 1) =~= seq![s[i]]);
    assert(s.subrange(j - 1, j) =~= seq![s[j - 1]]);
    assert(s.subrange(i, j) =~= (seq!['"' as u8] + basic_text(k)) + seq!['"' as u8]);
    assert(qb(k) =~= (seq!['"' as u8] + basic_text(k)) + seq!['"' as u8]);
}

pub proof fn lemma_p_qs_sound(s: Seq<u8>, i: int, d: Seq<u8>, j: int)
    requires
        0 <= i <= s.len(),
        p_qs(s, i) == Some((d, j)),
    ensures
        i < j <= s.len(),
        d.len() == 32,
        s.subrange(i, j) == qs(d),
{
    lemma_p_sap_text_sound(s, i + 1, d, j - 1);
    lemma_join(s, i, i + 1, j - 1);
    lemma_join(s, i, j - 1, j);
    assert(s.subrange(i, i + 1) =~= seq![s[i]]);
    assert(s.subrange(j - 1, j) =~= seq![s[j - 1]]);
    assert(s.subrange(i, j) =~= (seq!['"' as u8] + sap_text(d)) + seq!['"' as u8]);
    assert(qs(d) =~= (seq!['"' as u8] + sap_text(d)) + seq!['"' as u8]);
}

pub proof fn lemma_p_blist_items_sound(s: Seq<u8>, i: int, ks: Seq<Seq<u8>>, j: int)
    requires
        0 <= i <= s.len(),
        p_blist_items(s, i) == Some((ks, j)),
    ensures
        i < j <= s.len(),
        ks.len() >= 1,
        wf_blist(ks),
        s.subrange(i, j) == ser_blist_items(ks) + seq![']' as u8],
    decreases s.len() - i,
{
    let r1 = p_qb(s, i);
    let k = r1->Some_0.0;
    let j1 = r1->Some_0.1;
    lemma_p_qb_sound(s, i, k, j1);
    if i < j1 && j1 < s.len() && s[j1] == ',' as u8 {
        let r2 = p_blist_items(s, j1 + 1);
        let rest = r2->Some_0.0;
        lemma_p_blist_items_sound(s, j1 + 1, rest, j);
        assert(ks == seq![k] + rest);
        assert(ks[0] == k);
        assert(ks.skip(1) =~= rest);
        assert(ser_blist_items(ks) == qb(ks[0]) + seq![',' as u8] + ser_blist_items(ks.skip(1)));
        lemma_join(s, i, j1, j1 + 1);
        lemma_join(s, i, j1 + 1, j);
        assert(s.subrange(j1, j1 + 1) =~= seq![',' as u8]);
        assert(s.subrange(i, j) =~= ser_blist_items(ks) + seq![']' as u8]);
        assert forall|t: int| 0 <= t < ks.len() implies (#[trigger] ks[t]).len() == 32 by {
            if t > 0 {
                assert(rest[t - 1].len() == 32);
            }
        }
    } else {
        assert(ks =~= seq![k]);
        lemma_join(s, i, j1, j);
        assert(s.subrange(j1, j) =~= seq![']' as u8]);
        assert(s.subrange(i, j) =~= ser_blist_items(ks) + seq![']' as u8]);
    }
}

pub proof fn lemma_p_blist_sound(s: Seq<u8>, i: int, ks: Seq<Seq<u8>>, j: int)
    requires
        0 <= i <= s.len(),
        p_blist(s, i) == Some((ks, j)),
    ensures
        i < j <= s.len(),
        wf_blist(ks),
        s.subrange(i, j) == ser_blist(ks),
{
    if i + 1 < s.len() && s[i + 1] == ']' as u8 {
        assert(s.subrange(i, j) =~= ser_blist(ks));
    } else {
        lemma_p_blist_items_sound(s, i + 1, ks, j);
        lemma_join(s, i, i + 1, j);
        assert(s.subrange(i, i + 1) =~= seq!['[' as u8]);
        assert(s.subrange(i, j) =~= ser_blist(ks));
    }
}

pub proof fn lemma_p_slist_items_sound(s: Seq<u8>, i: int, ds: Seq<Seq<u8>>, j: int)
    requires
        0 <= i <= s.len(),
        p_slist_items(s, i) == Some((ds, j)),
    ensures
        i < j <= s.len(),
        ds.len() >= 1,
        wf_blist(ds),
        s.subrange(i, j) == ser_slist_items(ds) + seq![']' as u8],
    decreases s.len() - i,
{
    let r1 = p_qs(s, i);
    let d = r1->Some_0.0;
    let j1 = r1->Some_0.1;
    lemma_p_qs_sound(s, i, d, j1);
    if i < j1 && j1 < s.len() && s[j1] == ',' as u8 {
        let r2 = p_slist_items(s, j1 + 1);
        let rest = r2->Some_0.0;
        lemma_p_slist_items_sound(s, j1 + 1, rest, j);
        assert(ds == seq![d] + rest);
        assert(ds[0] == d);
        assert(ds.skip(1) =~= rest);
        assert(ser_slist_items(ds) == qs(ds[0]) + seq![',' as u8] + ser_slist_items(ds.skip(1)));
        lemma_join(s, i, j1, j1 + 1);
        lemma_join(s, i, j1 + 1, j);
        assert(s.subrange(j1, j1 + 1) =~= seq![',' as u8]);
        assert(s.subrange(i, j) =~= ser_slist_items(ds) + seq![']' as u8]);
        assert forall|t: int| 0 <= t < ds.len() implies (#[trigger] ds[t]).len() == 32 by {
            if t > 0 {
                assert(rest[t - 1].len() == 32);
            }
        }
    } else {
        assert(ds =~= seq![d]);
        lemma_join(s, i, j1, j);
        assert(s.subrange(j1, j) =~= seq![']' as u8]);
        assert(s.subrange(i, j) =~= ser_slist_items(ds) + seq![']' as u8]);
    }
}

pub proof fn lemma_p_slist_sound(s: Seq<u8>, i: int, ds: Seq<Seq<u8>>, j: int)
    requires
        0 <= i <= s.len(),
        p_slist(s, i) == Some((ds, j)),
    ensures
        i < j <= s.len(),
        wf_blist(ds),
        s.subrange(i, j) == ser_slist(ds),
{
    if i + 1 < s.len() && s[i + 1] == ']' as u8 {
        assert(s.subrange(i, j) =~= ser_slist(ds));
    } else {
        lemma_p_slist_items_sound(s, i + 1, ds, j);
        lemma_join(s, i, i + 1, j);
        assert(s.subrange(i, i + 1) =~= seq!['[' as u8]);
        assert(s.subrange(i, j) =~= ser_slist(ds));
    }
}

pub proof fn lemma_p_seal_sound(s: Seq<u8>, i: int, x: SealV, j: int)
    requires
        0 <= i <= s.len(),
        p_seal(s, i) == Some((x, j)),
    ensures
        i < j <= s.len(),
        wf_seal(x),
        s.subrange(i, j) == ser_seal(x),
{
    match p_lit(s, i, crate::ser::lit_sdig()) {
        Some(j1) => {
            let r2 = p_sap_text(s, j1);
            let d = r2->Some_0.0;
            let j2 = r2->Some_0.1;
            lemma_p_sap_text_sound(s, j1, d, j2);
            lemma_join(s, i, j1, j2);
            lemma_join(s, i, j2, j);
            assert(s.subrange(j2, j) =~= crate::ser::lit_qrb());
            assert(s.subrange(i, j) =~= ser_seal(x));
        },
        None => {
            let r1 = p_lit(s, i, crate::ser::lit_spref());
            let j1 = r1->Some_0;
            let r2 = p_id_text(s, j1);
            let p = r2->Some_0.0;
            let j2 = r2->Some_0.1;
            lemma_p_id_text_sound(s, j1, p, j2);
            let r3 = p_lit(s, j2, crate::ser::lit_qdig());
            let j3 = r3->Some_0;
            let r4 = p_sap_text(s, j3);
            let d = r4->Some_0.0;
            let j4 = r4->Some_0.1;
            lemma_p_sap_text_sound(s, j3, d, j4);
            lemma_join(s, i, j1, j2);
            lemma_join(s, i, j2, j3);
            lemma_join(s, i, j3, j4);
            lemma_join(s, i, j4, j);
            assert(s.subrange(j4, j) =~= crate::ser::lit_qrb());
            assert(s.subrange(i, j) =~= ser_seal(x));
        },
    }
}

pub proof fn lemma_p_seallist_items_sound(s: Seq<u8>, i: int, ss: Seq<SealV>, j: int)
    requires
        0 <= i <= s.len(),
        p_seallist_items(s, i) == Some((ss, j)),
    ensures
        i < j <= s.len(),
        ss.len() >= 1,
        wf_seallist(ss),
        s.subrange(i, j) == ser_seallist_items(ss) + seq![']' as u8],
    decreases s.len() - i,
{
    let r1 = p_seal(s, i);
    let x = r1->Some_0.0;
    let j1 = r1->Some_0.1;
    lemma_p_seal_sound(s, i, x, j1);
    if i < j1 && j1 < s.len() && s[j1] == ',' as u8 {
        let r2 = p_seallist_items(s, j1 + 1);
        let rest = r2->Some_0.0;
        lemma_p_seallist_items_sound(s, j1 + 1, rest, j);
        assert(ss == seq![x] + rest);
        assert(ss[0] == x);
        assert(ss.skip(1) =~= rest);
        assert(ser_seallist_items(ss) == ser_seal(ss[0]) + seq![',' as u8] + ser_seallist_items(
            ss.skip(1),
        ));
        lemma_join(s, i, j1, j1 + 1);
        lemma_join(s, i, j1 + 1, j);
        assert(s.subrange(j1, j1 + 1) =~= seq![',' as u8]);
        assert(s.subrange(i, j) =~= ser_seallist_items(ss) + seq![']' as u8]);
        assert forall|t: int| 0 <= t < ss.len() implies wf_seal(#[trigger] ss[t]) by {
            if t > 0 {
                assert(wf_seal(rest[t - 1]));
            }
        }
    } else {
        assert(ss =~= seq![x]);
        lemma_join(s, i, j1, j);
        assert(s.subrange(j1, j) =~= seq![']' as u8]);
        assert(s.subrange(i, j) =~= ser_seallist_items(ss) + seq![']' as u8]);
    }
}

pub proof fn lemma_p_seallist_sound(s: Seq<u8>, i: int, ss: Seq<SealV>, j: int)
    requires
        0 <= i <= s.len(),
        p_seallist(s, i) == Some((ss, j)),
    ensures
        i < j <= s.len(),
        wf_seallist(ss),
        s.subrange(i, j) == ser_seallist(ss),
{
    if i + 1 < s.len() && s[i + 1] == ']' as u8 {
        assert(s.subrange(i, j) =~= ser_seallist(ss));
    } else {
        lemma_p_seallist_items_sound(s, i + 1, ss, j);
        lemma_join(s, i, i + 1, j);
        assert(s.subrange(i, i + 1) =~= seq!['[' as u8]);
        assert(s.subrange(i, j) =~= ser_seallist(ss));
    }
}

#[verifier::rlimit(100)]
pub proof fn lemma_p_body_icp_sound(s: Seq<u8>, i: int, d: EventDataV, j: int)
    requires
        0 <= i <= s.len(),
        p_body_icp(s, i) == Some((d, j)),
    ensures
        i < j <= s.len(),
        wf_data(d),
        d is Icp,
        s.subrange(i, j) == ser_body(d),
{
    reveal(crate::parse::p_body_icp);
    reveal(crate::ser::ser_body);
    let j1 = p_lit(s, i, crate::ser::lit_sith())->Some_0;
    let r2 = p_dec(s, j1);
    let threshold = r2->Some_0.0;
    let j2 = r2->Some_0.1;
    lemma_p_dec_sound(s, j1, threshold, j2);
    let j3 = p_lit(s, j2, crate::ser::lit_keys())->Some_0;
    let r4 = p_blist(s, j3);
    let keys = r4->Some_0.0;
    let j4 = r4->Some_0.1;
    lemma_p_blist_sound(s, j3, keys, j4);
    let j5 = p_lit(s, j4, crate::ser::lit_nxt())->Some_0;
    let r6 = p_sap_text(s, j5);
    let nxt = r6->Some_0.0;
    let j6 = r6->Some_0.1;
    lemma_p_sap_text_sound(s, j5, nxt, j6);
    let j7 = p_lit(s, j6, crate::ser::lit_qtoad())->Some_0;
    let r8 = p_dec(s, j7);
    let tally = r8->Some_0.0;
    let j8 = r8->Some_0.1;
    lemma_p_dec_sound(s, j7, tally, j8);
    let j9 = p_lit(s, j8, crate::ser::lit_wits())->Some_0;
    let r10 = p_blist(s, j9);
    let wits = r10->Some_0.0;
    let j10 = r10->Some_0.1;
    lemma_p_blist_sound(s, j9, wits, j10);
    let j11 = p_lit(s, j10, crate::ser::lit_cnfg())->Some_0;
    let r12 = p_slist(s, j11);
    let cnfg = r12->Some_0.0;
    let j12 = r12->Some_0.1;
    lemma_p_slist_sound(s, j11, cnfg, j12);
    lemma_join(s, i, j1, j2);
    lemma_join(s, i, j2, j3);
    lemma_join(s, i, j3, j4);
    lemma_join(s, i, j4, j5);
    lemma_join(s, i, j5, j6);
    lemma_join(s, i, j6, j7);
    lemma_join(s, i, j7, j8);
    lemma_join(s, i, j8, j9);
    lemma_join(s, i, j9, j10);
    lemma_join(s, i, j10, j11);
    lemma_join(s, i, j11, j12);
    assert(s.subrange(i, j12) == ser_body(d));
}

#[verifier::rlimit(100)]
pub proof fn lemma_p_body_rot_sound(s: Seq<u8>, i: int, d: EventDataV, j: int)
    requires
        0 <= i <= s.len(),
        p_body_rot(s, i) == Some((d, j)),
    ensures
        i < j <= s.len(),
        wf_data(d),
        d is Rot,
        s.subrange(i, j) == ser_body(d),
{
    reveal(crate::parse::p_body_rot);
    reveal(crate::ser::ser_body);
    let j1 = p_lit(s, i, crate::ser::lit_prev())->Some_0;
    let r2 = p_sap_text(s, j1);
    let prev = r2->Some_0.0;
    let j2 = r2->Some_0.1;
    lemma_p_sap_text_sound(s, j1, prev, j2);
    let j3 = p_lit(s, j2, crate::ser::lit_qsith())->Some_0;
    let r4 = p_dec(s, j3);
    let threshold = r4->Some_0.0;
    let j4 = r4->Some_0.1;
    lemma_p_dec_sound(s, j3, threshold, j4);
    let j5 = p_lit(s, j4, crate::ser::lit_keys())->Some_0;
    let r6 = p_blist(s, j5);
    let keys = r6->Some_0.0;
    let j6 = r6->Some_0.1;
    lemma_p_blist_sound(s, j5, keys, j6);
    let j7 = p_lit(s, j6, crate::ser::lit_nxt())->Some_0;
    let r8 = p_sap_text(s, j7);
    let nxt = r8->Some_0.0;
    let j8 = r8->Some_0.1;
    lemma_p_sap_text_sound(s, j7, nxt, j8);
    let j9 = p_lit(s, j8, crate::ser::lit_qtoad())->Some_0;
    let r10 = p_dec(s, j9);
    let tally = r10->Some_0.0;
    let j10 = r10->Some_0.1;
    lemma_p_dec_sound(s, j9, tally, j10);
    let j11 = p_lit(s, j10, crate::ser::lit_cuts())->Some_0;
    let r12 = p_blist(s, j11);
    let prune = r12->Some_0.0;
    let j12 = r12->Some_0.1;
    lemma_p_blist_sound(s, j11, prune, j12);
    let j13 = p_lit(s, j12, crate::ser::lit_adds())->Some_0;
    let r14 = p_blist(s, j13);
    let graft = r14->Some_0.0;
    let j14 = r14->Some_0.1;
    lemma_p_blist_sound(s, j13, graft, j14);
    let j15 = p_lit(s, j14, crate::ser::lit_data())->Some_0;
    let r16 = p_seallist(s, j15);
    let data = r16->Some_0.0;
    let j16 = r16->Some_0.1;
    lemma_p_seallist_sound(s, j15, data, j16);
    lemma_join(s, i, j1, j2);
    lemma_join(s, i, j2, j3);
    lemma_join(s, i, j3, j4);
    lemma_join(s, i, j4, j5);
    lemma_join(s, i, j5, j6);
    lemma_join(s, i, j6, j7);
    lemma_join(s, i, j7, j8);
    lemma_join(s, i, j8, j9);
    lemma_join(s, i, j9, j10);
    lemma_join(s, i, j10, j11);
    lemma_join(s, i, j11, j12);
    lemma_join(s, i, j12, j13);
    lemma_join(s, i, j13, j14);
    lemma_join(s, i, j14, j15);
    lemma_join(s, i, j15, j16);
    assert(s.subrange(i, j16) == ser_body(d));
}

pub proof fn lemma_p_body_ixn_sound(s: Seq<u8>, i: int, d: EventDataV, j: int)
    requires
        0 <= i <= s.len(),
        p_body_ixn(s, i) == Some((d, j)),
    ensures
        i < j <= s.len(),
        wf_data(d),
        d is Ixn,
        s.subrange(i, j) == ser_body(d),
{
    reveal(crate::parse::p_body_ixn);
    reveal(crate::ser::ser_body);
    let j1 = p_lit(s, i, crate::ser::lit_prev())->Some_0;
    let r2 = p_sap_text(s, j1);
    let prev = r2->Some_0.0;
    let j2 = r2->Some_0.1;
    lemma_p_sap_text_sound(s, j1, prev, j2);
    let j3 = p_lit(s, j2, crate::ser::lit_qdata())->Some_0;
    let r4 = p_seallist(s, j3);
    let data = r4->Some_0.0;
    let j4 = r4->Some_0.1;
    lemma_p_seallist_sound(s, j3, data, j4);
    lemma_join(s, i, j1, j2);
    lemma_join(s, i, j2, j3);
    lemma_join(s, i, j3, j4);
    assert(s.subrange(i, j4) == ser_body(d));
}

pub proof fn lemma_p_body_vrc_sound(s: Seq<u8>, i: int, d: EventDataV, j: int)
    requires
        0 <= i <= s.len(),
        p_body_vrc(s, i) == Some((d, j)),
    ensures
        i < j <= s.len(),
        wf_data(d),
        d is Vrc,
        s.subrange(i, j) == ser_body(d),
{
    reveal(crate::parse::p_body_vrc);
    reveal(crate::ser::ser_body);
    let j1 = p_lit(s, i, crate::ser::lit_dig())->Some_0;
    let r2 = p_sap_text(s, j1);
    let dig = r2->Some_0.0;
    let j2 = r2->Some_0.1;
    lemma_p_sap_text_sound(s, j1, dig, j2);
    let j3 = p_lit(s, j2, crate::ser::lit_qseal())->Some_0;
    let r4 = p_id_text(s, j3);
    let pref = r4->Some_0.0;
    let j4 = r4->Some_0.1;
    lemma_p_id_text_sound(s, j3, pref, j4);
    let j5 = p_lit(s, j4, crate::ser::lit_qdig())->Some_0;
    let r6 = p_sap_text(s, j5);
    let sd = r6->Some_0.0;
    let j6 = r6->Some_0.1;
    lemma_p_sap_text_sound(s, j5, sd, j6);
    let j7 = p_lit(s, j6, crate::ser::lit_qrb())->Some_0;
    lemma_join(s, i, j1, j2);
    lemma_join(s, i, j2, j3);
    lemma_join(s, i, j3, j4);
    lemma_join(s, i, j4, j5);
    lemma_join(s, i, j5, j6);
    lemma_join(s, i, j6, j7);
    assert(s.subrange(i, j7) == ser_body(d));
}

#[verifier::rlimit(100)]
pub proof fn lemma_p_event_sound(s: Seq<u8>, i: int, e: crate::event::EventV, j: int)
    requires
        0 <= i <= s.len(),
        p_event(s, i) == Some((e, j)),
    ensures
        i < j <= s.len(),
        wf_event(e),
        s.subrange(i, j) == ser_event(e),
{
    reveal(crate::ser::ser_event);
    let j1 = p_lit(s, i, crate::ser::lit_head())->Some_0;
    let r2 = p_id_text(s, j1);
    let pref = r2->Some_0.0;
    let j2 = r2->Some_0.1;
    lemma_p_id_text_sound(s, j1, pref, j2);
    let j3 = p_lit(s, j2, crate::ser::lit_sn())->Some_0;
    let r4 = p_dec(s, j3);
    let sn = r4->Some_0.0;
    let j4 = r4->Some_0.1;
    lemma_p_dec_sound(s, j3, sn, j4);
    let j6: int = j - 1;
    match p_lit(s, j4, crate::ser::lit_ilk_icp()) {
        Some(j5) => {
            let rb = p_body_icp(s, j5);
            lemma_p_body_icp_sound(s, j5, rb->Some_0.0, rb->Some_0.1);
            lemma_join(s, i, j4, j5);
            lemma_join(s, i, j5, rb->Some_0.1);
        },
        None => match p_lit(s, j4, crate::ser::lit_ilk_rot()) {
            Some(j5) => {
                let rb = p_body_rot(s, j5);
                lemma_p_body_rot_sound(s, j5, rb->Some_0.0, rb->Some_0.1);
                lemma_join(s, i, j4, j5);
                lemma_join(s, i, j5, rb->Some_0.1);
            },
            None => match p_lit(s, j4, crate::ser::lit_ilk_ixn()) {
                Some(j5) => {
                    let rb = p_body_ixn(s, j5);
                    lemma_p_body_ixn_sound(s, j5, rb->Some_0.0, rb->Some_0.1);
                    lemma_join(s, i, j4, j5);
                    lemma_join(s, i, j5, rb->Some_0.1);
                },
                None => {
                    let j5 = p_lit(s, j4, crate::ser::lit_ilk_vrc())->Some_0;
                    let rb = p_body_vrc(s, j5);
                    lemma_p_body_vrc_sound(s, j5, rb->Some_0.0, rb->Some_0.1);
                    lemma_join(s, i, j4, j5);
                    lemma_join(s, i, j5, rb->Some_0.1);
                },
            },
        },
    }
    lemma_join(s, i, j1, j2);
    lemma_join(s, i, j2, j3);
    lemma_join(s, i, j3, j4);
    lemma_join(s, i, j6, j);
    assert(s.subrange(j6, j) =~= seq!['}' as u8]);
    assert(s.subrange(i, j) == ser_event(e));
}

pub proof fn lemma_p_sigs_sound(s: Seq<u8>, i: int, n: int, sigs: Seq<AttSigV>, j: int)
    requires
        0 <= i <= s.len(),
        p_sigs(s, i, n) == Some((sigs, j)),
    ensures
        i <= j <= s.len(),
        sigs.len() == if n >= 0 { n } else { 0 },
        forall|t: int| 0 <= t < sigs.len() ==> attsig_wf(#[trigger] sigs[t]),
        s.subrange(i, j) == ser_sigs(sigs),
    decreases n,
{
    if n <= 0 {
        assert(s.subrange(i, j) =~= ser_sigs(sigs));
    } else {
        let r1 = p_attsig(s, i);
        let a = r1->Some_0.0;
        let j1 = r1->Some_0.1;
        lemma_p_attsig_sound(s, i, a, j1);
        let r2 = p_sigs(s, j1, n - 1);
        let rest = r2->Some_0.0;
        lemma_p_sigs_sound(s, j1, n - 1, rest, j);
        assert(sigs == seq![a] + rest);
        assert(sigs[0] == a);
        assert(sigs.skip(1) =~= rest);
        lemma_join(s, i, j1, j);
        assert(s.subrange(i, j) =~= ser_sigs(sigs));
        assert forall|t: int| 0 <= t < sigs.len() implies attsig_wf(#[trigger] sigs[t]) by {
            if t > 0 {
                assert(attsig_wf(rest[t - 1]));
            }
        }
    }
}

/// The decoder accepts only canonical bytes: whatever parses as a signed
/// event is well formed, and the consumed bytes are exactly its canonical
/// serialization.
pub proof fn lemma_p_signed_sound(s: Seq<u8>, i: int, v: SignedEventV, j: int)
    requires
        0 <= i <= s.len(),
        p_signed(s, i) == Some((v, j)),
    ensures
        i < j <= s.len(),
        wf_signed(v),
        s.subrange(i, j) == ser_signed(v),
{
    let r1 = p_event(s, i);
    let e = r1->Some_0.0;
    let j1 = r1->Some_0.1;
    lemma_p_event_sound(s, i, e, j1);
    let n = crate::base64::b64_inv(s[j1 + 1])->Some_0;
    lemma_b64_inv_char(s[j1 + 1]);
    let r2 = p_sigs(s, j1 + 2, n as int);
    let sigs = r2->Some_0.0;
    lemma_p_sigs_sound(s, j1 + 2, n as int, sigs, j);
    lemma_join(s, i, j1, j1 + 2);
    lemma_join(s, i, j1 + 2, j);
    assert(s.subrange(j1, j1 + 2) =~= seq!['-' as u8, crate::base64::b64_char(
        v.signatures.len() as u8,
    )]);
    assert(s.subrange(i, j) =~= ser_signed(v));
}

} // verus!

use vstd::prelude::*;

use crate::base64::b64_char;
use crate::event::{
    Event, EventData, EventDataV, EventMessage, EventV, SignedEventMessage, SignedEventV, Seal, SealV,
};
use crate::prefix::{
    attsig_text, basic_text, id_text, sap_text, AttSigV, AttachedSignaturePrefix, BasicPrefix,
    SelfAddressingPrefix,
};

verus! {

// Canonical JSON serialization. One encoder, deterministic: fields in the
// declared order of each variant, compact separators, decimal integers without
// leading zeros, byte strings in their textual prefix form. Specification
// functions define the exact bytes; the executable serializer is proved to
// emit them.

pub open spec fn lit_head() -> Seq<u8> {
    seq!['{' as u8, '"' as u8, 'v' as u8, 's' as u8, '"' as u8, ':' as u8, '"' as u8, 'T' as u8, 'D' as u8, 'A' as u8, '1' as u8, '0' as u8, 'J' as u8, 'S' as u8, 'O' as u8, 'N' as u8, '"' as u8, ',' as u8, '"' as u8, 'p' as u8, 'r' as u8, 'e' as u8, 'f' as u8, '"' as u8, ':' as u8, '"' as u8]
}

pub fn lit_head_e() -> (r: Vec<u8>)
    ensures
        r@ == lit_head(),
{
    let mut v: Vec<u8> = Vec::new();
    v.push('{' as u8);
    v.push('"' as u8);
    v.push('v' as u8);
    v.push('s' as u8);
    v.push('"' as u8);
    v.push(':' as u8);
    v.push('"' as u8);
    v.push('T' as u8);
    v.push('D' as u8);
    v.push('A' as u8);
    v.push('1' as u8);
    v.push('0' as u8);
    v.push('J' as u8);
    v.push('S' as u8);
    v.push('O' as u8);
    v.push('N' as u8);
    v.push('"' as u8);
    v.push(',' as u8);
    v.push('"' as u8);
    v.push('p' as u8);
    v.push('r' as u8);
    v.push('e' as u8);
    v.push('f' as u8);
    v.push('"' as u8);
    v.push(':' as u8);
    v.push('"' as u8);
    proof {
        assert(v@ =~= lit_head());
    }
    v
}

pub open spec fn lit_sn() -> Seq<u8> {
    seq!['"' as u8, ',' as u8, '"' as u8, 's' as u8, 'n' as u8, '"' as u8, ':' as u8]
}

pub fn lit_sn_e() -> (r: Vec<u8>)
    ensures
        r@ == lit_sn(),
{
    let mut v: Vec<u8> = Vec::new();
    v.push('"' as u8);
    v.push(',' as u8);
    v.push('"' as u8);
    v.push('s' as u8);
    v.push('n' as u8);
    v.push('"' as u8);
    v.push(':' as u8);
    proof {
        assert(v@ =~= lit_sn());
    }
    v
}

pub open spec fn lit_ilk_icp() -> Seq<u8> {
    seq![',' as u8, '"' as u8, 'i' as u8, 'l' as u8, 'k' as u8, '"' as u8, ':' as u8, '"' as u8, 'i' as u8, 'c' as u8, 'p' as u8, '"' as u8, ',' as u8]
}

pub fn lit_ilk_icp_e() -> (r: Vec<u8>)
    ensures
        r@ == lit_ilk_icp(),
{
    let mut v: Vec<u8> = Vec::new();
    v.push(',' as u8);
    v.push('"' as u8);
    v.push('i' as u8);
    v.push('l' as u8);
    v.push('k' as u8);
    v.push('"' as u8);
    v.push(':' as u8);
    v.push('"' as u8);
    v.push('i' as u8);
    v.push('c' as u8);
    v.push('p' as u8);
    v.push('"' as u8);
    v.push(',' as u8);
    proof {
        assert(v@ =~= lit_ilk_icp());
    }
    v
}

pub open spec fn lit_ilk_rot() -> Seq<u8> {
    seq![',' as u8, '"' as u8, 'i' as u8, 'l' as u8, 'k' as u8, '"' as u8, ':' as u8, '"' as u8, 'r' as u8, 'o' as u8, 't' as u8, '"' as u8, ',' as u8]
}

pub fn lit_ilk_rot_e() -> (r: Vec<u8>)
    ensures
        r@ == lit_ilk_rot(),
{
    let mut v: Vec<u8> = Vec::new();
    v.push(',' as u8);
    v.push('"' as u8);
    v.push('i' as u8);
    v.push('l' as u8);
    v.push('k' as u8);
    v.push('"' as u8);
    v.push(':' as u8);
    v.push('"' as u8);
    v.push('r' as u8);
    v.push('o' as u8);
    v.push('t' as u8);
    v.push('"' as u8);
    v.push(',' as u8);
    proof {
        assert(v@ =~= lit_ilk_rot());
    }
    v
}

pub open spec fn lit_ilk_ixn() -> Seq<u8> {
    seq![',' as u8, '"' as u8, 'i' as u8, 'l' as u8, 'k' as u8, '"' as u8, ':' as u8, '"' as u8, 'i' as u8, 'x' as u8, 'n' as u8, '"' as u8, ',' as u8]
}

pub fn lit_ilk_ixn_e() -> (r: Vec<u8>)
    ensures
        r@ == lit_ilk_ixn(),
{
    let mut v: Vec<u8> = Vec::new();
    v.push(',' as u8);
    v.push('"' as u8);
    v.push('i' as u8);
    v.push('l' as u8);
    v.push('k' as u8);
    v.push('"' as u8);
    v.push(':' as u8);
    v.push('"' as u8);
    v.push('i' as u8);
    v.push('x' as u8);
    v.push('n' as u8);
    v.push('"' as u8);
    v.push(',' as u8);
    proof {
        assert(v@ =~= lit_ilk_ixn());
    }
    v
}

pub open spec fn lit_ilk_vrc() -> Seq<u8> {
    seq![',' as u8, '"' as u8, 'i' as u8, 'l' as u8, 'k' as u8, '"' as u8, ':' as u8, '"' as u8, 'v' as u8, 'r' as u8, 'c' as u8, '"' as u8, ',' as u8]
}

pub fn lit_ilk_vrc_e() -> (r: Vec<u8>)
    ensures
        r@ == lit_ilk_vrc(),
{
    let mut v: Vec<u8> = Vec::new();
    v.push(',' as u8);
    v.push('"' as u8);
    v.push('i' as u8);
    v.push('l' as u8);
    v.push('k' as u8);
    v.push('"' as u8);
    v.push(':' as u8);
    v.push('"' as u8);
    v.push('v' as u8);
    v.push('r' as u8);
    v.push('c' as u8);
    v.push('"' as u8);
    v.push(',' as u8);
    proof {
        assert(v@ =~= lit_ilk_vrc());
    }
    v
}

pub open spec fn lit_sith() -> Seq<u8> {
    seq!['"' as u8, 's' as u8, 'i' as u8, 't' as u8, 'h' as u8, '"' as u8, ':' as u8]
}

pub fn lit_sith_e() -> (r: Vec<u8>)
    ensures
        r@ == lit_sith(),
{
    let mut v: Vec<u8> = Vec::new();
    v.push('"' as u8);
    v.push('s' as u8);
    v.push('i' as u8);
    v.push('t' as u8);
    v.push('h' as u8);
    v.push('"' as u8);
    v.push(':' as u8);
    proof {
        assert(v@ =~= lit_sith());
    }
    v
}

pub open spec fn lit_keys() -> Seq<u8> {
    seq![',' as u8, '"' as u8, 'k' as u8, 'e' as u8, 'y' as u8, 's' as u8, '"' as u8, ':' as u8]
}

pub fn lit_keys_e() -> (r: Vec<u8>)
    ensures
        r@ == lit_keys(),
{
    let mut v: Vec<u8> = Vec::new();
    v.push(',' as u8);
    v.push('"' as u8);
    v.push('k' as u8);
    v.push('e' as u8);
    v.push('y' as u8);
    v.push('s' as u8);
    v.push('"' as u8);
    v.push(':' as u8);
    proof {
        assert(v@ =~= lit_keys());
    }
    v
}

pub open spec fn lit_nxt() -> Seq<u8> {
    seq![',' as u8, '"' as u8, 'n' as u8, 'x' as u8, 't' as u8, '"' as u8, ':' as u8, '"' as u8]
}

pub fn lit_nxt_e() -> (r: Vec<u8>)
    ensures
        r@ == lit_nxt(),
{
    let mut v: Vec<u8> = Vec::new();
    v.push(',' as u8);
    v.push('"' as u8);
    v.push('n' as u8);
    v.push('x' as u8);
    v.push('t' as u8);
    v.push('"' as u8);
    v.push(':' as u8);
    v.push('"' as u8);
    proof {
        assert(v@ =~= lit_nxt());
    }
    v
}

pub open spec fn lit_qtoad() -> Seq<u8> {
    seq!['"' as u8, ',' as u8, '"' as u8, 't' as u8, 'o' as u8, 'a' as u8, 'd' as u8, '"' as u8, ':' as u8]
}

pub fn lit_qtoad_e() -> (r: Vec<u8>)
    ensures
        r@ == lit_qtoad(),
{
    let mut v: Vec<u8> = Vec::new();
    v.push('"' as u8);
    v.push(',' as u8);
    v.push('"' as u8);
    v.push('t' as u8);
    v.push('o' as u8);
    v.push('a' as u8);
    v.push('d' as u8);
    v.push('"' as u8);
    v.push(':' as u8);
    proof {
        assert(v@ =~= lit_qtoad());
    }
    v
}

pub open spec fn lit_wits() -> Seq<u8> {
    seq![',' as u8, '"' as u8, 'w' as u8, 'i' as u8, 't' as u8, 's' as u8, '"' as u8, ':' as u8]
}

pub fn lit_wits_e() -> (r: Vec<u8>)
    ensures
        r@ == lit_wits(),
{
    let mut v: Vec<u8> = Vec::new();
    v.push(',' as u8);
    v.push('"' as u8);
    v.push('w' as u8);
    v.push('i' as u8);
    v.push('t' as u8);
    v.push('s' as u8);
    v.push('"' as u8);
    v.push(':' as u8);
    proof {
        assert(v@ =~= lit_wits());
    }
    v
}

pub open spec fn lit_cnfg() -> Seq<u8> {
    seq![',' as u8, '"' as u8, 'c' as u8, 'n' as u8, 'f' as u8, 'g' as u8, '"' as u8, ':' as u8]
}

pub fn lit_cnfg_e() -> (r: Vec<u8>)
    ensures
        r@ == lit_cnfg(),
{
    let mut v: Vec<u8> = Vec::new();
    v.push(',' as u8);
    v.push('"' as u8);
    v.push('c' as u8);
    v.push('n' as u8);
    v.push('f' as u8);
    v.push('g' as u8);
    v.push('"' as u8);
    v.push(':' as u8);
    proof {
        assert(v@ =~= lit_cnfg());
    }
    v
}

pub open spec fn lit_prev() -> Seq<u8> {
    seq!['"' as u8, 'p' as u8, 'r' as u8, 'e' as u8, 'v' as u8, '"' as u8, ':' as u8, '"' as u8]
}

pub fn lit_prev_e() -> (r: Vec<u8>)
    ensures
        r@ == lit_prev(),
{
    let mut v: Vec<u8> = Vec::new();
    v.push('"' as u8);
    v.push('p' as u8);
    v.push('r' as u8);
    v.push('e' as u8);
    v.push('v' as u8);
    v.push('"' as u8);
    v.push(':' as u8);
    v.push('"' as u8);
    proof {
        assert(v@ =~= lit_prev());
    }
    v
}

pub open spec fn lit_qsith() -> Seq<u8> {
    seq!['"' as u8, ',' as u8, '"' as u8, 's' as u8, 'i' as u8, 't' as u8, 'h' as u8, '"' as u8, ':' as u8]
}

pub fn lit_qsith_e() -> (r: Vec<u8>)
    ensures
        r@ == lit_qsith(),
{
    let mut v: Vec<u8> = Vec::new();
    v.push('"' as u8);
    v.push(',' as u8);
    v.push('"' as u8);
    v.push('s' as u8);
    v.push('i' as u8);
    v.push('t' as u8);
    v.push('h' as u8);
    v.push('"' as u8);
    v.push(':' as u8);
    proof {
        assert(v@ =~= lit_qsith());
    }
    v
}

pub open spec fn lit_cuts() -> Seq<u8> {
    seq![',' as u8, '"' as u8, 'c' as u8, 'u' as u8, 't' as u8, 's' as u8, '"' as u8, ':' as u8]
}

pub fn lit_cuts_e() -> (r: Vec<u8>)
    ensures
        r@ == lit_cuts(),
{
    let mut v: Vec<u8> = Vec::new();
    v.push(',' as u8);
    v.push('"' as u8);
    v.push('c' as u8);
    v.push('u' as u8);
    v.push('t' as u8);
    v.push('s' as u8);
    v.push('"' as u8);
    v.push(':' as u8);
    proof {
        assert(v@ =~= lit_cuts());
    }
    v
}

pub open spec fn lit_adds() -> Seq<u8> {
    seq![',' as u8, '"' as u8, 'a' as u8, 'd' as u8, 'd' as u8, 's' as u8, '"' as u8, ':' as u8]
}

pub fn lit_adds_e() -> (r: Vec<u8>)
    ensures
        r@ == lit_adds(),
{
    let mut v: Vec<u8> = Vec::new();
    v.push(',' as u8);
    v.push('"' as u8);
    v.push('a' as u8);
    v.push('d' as u8);
    v.push('d' as u8);
    v.push('s' as u8);
    v.push('"' as u8);
    v.push(':' as u8);
    proof {
        assert(v@ =~= lit_adds());
    }
    v
}

pub open spec fn lit_data() -> Seq<u8> {
    seq![',' as u8, '"' as u8, 'd' as u8, 'a' as u8, 't' as u8, 'a' as u8, '"' as u8, ':' as u8]
}

pub fn lit_data_e() -> (r: Vec<u8>)
    ensures
        r@ == lit_data(),
{
    let mut v: Vec<u8> = Vec::new();
    v.push(',' as u8);
    v.push('"' as u8);
    v.push('d' as u8);
    v.push('a' as u8);
    v.push('t' as u8);
    v.push('a' as u8);
    v.push('"' as u8);
    v.push(':' as u8);
    proof {
        assert(v@ =~= lit_data());
    }
    v
}

pub open spec fn lit_qdata() -> Seq<u8> {
    seq!['"' as u8, ',' as u8, '"' as u8, 'd' as u8, 'a' as u8, 't' as u8, 'a' as u8, '"' as u8, ':' as u8]
}

pub fn lit_qdata_e() -> (r: Vec<u8>)
    ensures
        r@ == lit_qdata(),
{
    let mut v: Vec<u8> = Vec::new();
    v.push('"' as u8);
    v.push(',' as u8);
    v.push('"' as u8);
    v.push('d' as u8);
    v.push('a' as u8);
    v.push('t' as u8);
    v.push('a' as u8);
    v.push('"' as u8);
    v.push(':' as u8);
    proof {
        assert(v@ =~= lit_qdata());
    }
    v
}

pub open spec fn lit_dig() -> Seq<u8> {
    seq!['"' as u8, 'd' as u8, 'i' as u8, 'g' as u8, '"' as u8, ':' as u8, '"' as u8]
}

pub fn lit_dig_e() -> (r: Vec<u8>)
    ensures
        r@ == lit_dig(),
{
    let mut v: Vec<u8> = Vec::new();
    v.push('"' as u8);
    v.push('d' as u8);
    v.push('i' as u8);
    v.push('g' as u8);
    v.push('"' as u8);
    v.push(':' as u8);
    v.push('"' as u8);
    proof {
        assert(v@ =~= lit_dig());
    }
    v
}

pub open spec fn lit_qseal() -> Seq<u8> {
    seq!['"' as u8, ',' as u8, '"' as u8, 's' as u8, 'e' as u8, 'a' as u8, 'l' as u8, '"' as u8, ':' as u8, '{' as u8, '"' as u8, 'p' as u8, 'r' as u8, 'e' as u8, 'f' as u8, '"' as u8, ':' as u8, '"' as u8]
}

pub fn lit_qseal_e() -> (r: Vec<u8>)
    ensures
        r@ == lit_qseal(),
{
    let mut v: Vec<u8> = Vec::new();
    v.push('"' as u8);
    v.push(',' as u8);
    v.push('"' as u8);
    v.push('s' as u8);
    v.push('e' as u8);
    v.push('a' as u8);
    v.push('l' as u8);
    v.push('"' as u8);
    v.push(':' as u8);
    v.push('{' as u8);
    v.push('"' as u8);
    v.push('p' as u8);
    v.push('r' as u8);
    v.push('e' as u8);
    v.push('f' as u8);
    v.push('"' as u8);
    v.push(':' as u8);
    v.push('"' as u8);
    proof {
        assert(v@ =~= lit_qseal());
    }
    v
}

pub open spec fn lit_qdig() -> Seq<u8> {
    seq!['"' as u8, ',' as u8, '"' as u8, 'd' as u8, 'i' as u8, 'g' as u8, '"' as u8, ':' as u8, '"' as u8]
}

pub fn lit_qdig_e() -> (r: Vec<u8>)
    ensures
        r@ == lit_qdig(),
{
    let mut v: Vec<u8> = Vec::new();
    v.push('"' as u8);
    v.push(',' as u8);
    v.push('"' as u8);
    v.push('d' as u8);
    v.push('i' as u8);
    v.push('g' as u8);
    v.push('"' as u8);
    v.push(':' as u8);
    v.push('"' as u8);
    proof {
        assert(v@ =~= lit_qdig());
    }
    v
}

pub open spec fn lit_qrb() -> Seq<u8> {
    seq!['"' as u8, '}' as u8]
}

pub fn lit_qrb_e() -> (r: Vec<u8>)
    ensures
        r@ == lit_qrb(),
{
    let mut v: Vec<u8> = Vec::new();
    v.push('"' as u8);
    v.push('}' as u8);
    proof {
        assert(v@ =~= lit_qrb());
    }
    v
}

pub open spec fn lit_sdig() -> Seq<u8> {
    seq!['{' as u8, '"' as u8, 'd' as u8, 'i' as u8, 'g' as u8, '"' as u8, ':' as u8, '"' as u8]
}

pub fn lit_sdig_e() -> (r: Vec<u8>)
    ensures
        r@ == lit_sdig(),
{
    let mut v: Vec<u8> = Vec::new();
    v.push('{' as u8);
    v.push('"' as u8);
    v.push('d' as u8);
    v.push('i' as u8);
    v.push('g' as u8);
    v.push('"' as u8);
    v.push(':' as u8);
    v.push('"' as u8);
    proof {
        assert(v@ =~= lit_sdig());
    }
    v
}

pub open spec fn lit_spref() -> Seq<u8> {
    seq!['{' as u8, '"' as u8, 'p' as u8, 'r' as u8, 'e' as u8, 'f' as u8, '"' as u8, ':' as u8, '"' as u8]
}

pub fn lit_spref_e() -> (r: Vec<u8>)
    ensures
        r@ == lit_spref(),
{
    let mut v: Vec<u8> = Vec::new();
    v.push('{' as u8);
    v.push('"' as u8);
    v.push('p' as u8);
    v.push('r' as u8);
    v.push('e' as u8);
    v.push('f' as u8);
    v.push('"' as u8);
    v.push(':' as u8);
    v.push('"' as u8);
    proof {
        assert(v@ =~= lit_spref());
    }
    v
}

// Decimal numbers.

/// The minimal decimal form of `n`.
pub open spec fn ser_dec(n: nat) -> Seq<u8>
    decreases n,
{
    if n < 10 {
        seq![('0' as u8 + n) as u8]
    } else {
        ser_dec(n / 10).push(('0' as u8 + n % 10) as u8)
    }
}

/// Appends the decimal form of `n` to `out`.
pub fn push_dec(out: &mut Vec<u8>, n: u64)
    ensures
        final(out)@ == old(out)@ + ser_dec(n as nat),
    decreases n,
{
    if n < 10 {
        out.push('0' as u8 + (n as u8));
        assert(out@ =~= old(out)@ + ser_dec(n as nat));
    } else {
        push_dec(out, n / 10);
        out.push('0' as u8 + ((n % 10) as u8));
        assert(out@ =~= old(out)@ + ser_dec(n as nat));
    }
}

// Quoted prefix strings and lists.

/// A quoted Basic prefix: `"D..."`.
pub open spec fn qb(k: Seq<u8>) -> Seq<u8> {
    seq!['"' as u8] + basic_text(k) + seq!['"' as u8]
}

/// A quoted SelfAddressing prefix: `"E..."`.
pub open spec fn qs(d: Seq<u8>) -> Seq<u8> {
    seq!['"' as u8] + sap_text(d) + seq!['"' as u8]
}

pub open spec fn ser_blist_items(ks: Seq<Seq<u8>>) -> Seq<u8>
    decreases ks.len(),
{
    if ks.len() == 0 {
        Seq::empty()
    } else if ks.len() == 1 {
        qb(ks[0])
    } else {
        qb(ks[0]) + seq![',' as u8] + ser_blist_items(ks.skip(1))
    }
}

/// A JSON list of quoted Basic prefixes.
pub open spec fn ser_blist(ks: Seq<Seq<u8>>) -> Seq<u8> {
    seq!['[' as u8] + ser_blist_items(ks) + seq![']' as u8]
}

pub open spec fn ser_slist_items(ds: Seq<Seq<u8>>) -> Seq<u8>
    decreases ds.len(),
{
    if ds.len() == 0 {
        Seq::empty()
    } else if ds.len() == 1 {
        qs(ds[0])
    } else {
        qs(ds[0]) + seq![',' as u8] + ser_slist_items(ds.skip(1))
    }
}

/// A JSON list of quoted SelfAddressing prefixes.
pub open spec fn ser_slist(ds: Seq<Seq<u8>>) -> Seq<u8> {
    seq!['[' as u8] + ser_slist_items(ds) + seq![']' as u8]
}

/// A seal object: a digest seal or an event seal, told apart by first key.
pub open spec fn ser_seal(s: SealV) -> Seq<u8> {
    match s {
        SealV::Digest(d) => lit_sdig() + sap_text(d) + lit_qrb(),
        SealV::Event(e) => lit_spref() + id_text(e.prefix) + lit_qdig() + sap_text(e.event_digest)
            + lit_qrb(),
    }
}

pub open spec fn ser_seallist_items(ss: Seq<SealV>) -> Seq<u8>
    decreases ss.len(),
{
    if ss.len() == 0 {
        Seq::empty()
    } else if ss.len() == 1 {
        ser_seal(ss[0])
    } else {
        ser_seal(ss[0]) + seq![',' as u8] + ser_seallist_items(ss.skip(1))
    }
}

/// A JSON list of seal objects.
pub open spec fn ser_seallist(ss: Seq<SealV>) -> Seq<u8> {
    seq!['[' as u8] + ser_seallist_items(ss) + seq![']' as u8]
}

// The event body, per variant, in declared field order.

pub open spec fn ser_ilk(d: EventDataV) -> Seq<u8> {
    match d {
        EventDataV::Icp(_) => lit_ilk_icp(),
        EventDataV::Rot(_) => lit_ilk_rot(),
        EventDataV::Ixn(_) => lit_ilk_ixn(),
        EventDataV::Vrc(_) => lit_ilk_vrc(),
    }
}

#[verifier::opaque]
pub open spec fn ser_body(d: EventDataV) -> Seq<u8> {
    match d {
        EventDataV::Icp(e) => lit_sith() + ser_dec(e.key_config.threshold as nat) + lit_keys()
            + ser_blist(e.key_config.public_keys) + lit_nxt() + sap_text(
            e.key_config.threshold_key_digest,
        ) + lit_qtoad() + ser_dec(e.witness_config.tally as nat) + lit_wits() + ser_blist(
            e.witness_config.initial_witnesses,
        ) + lit_cnfg() + ser_slist(e.inception_configuration),
        EventDataV::Rot(e) => lit_prev() + sap_text(e.previous_event_hash) + lit_qsith()
            + ser_dec(e.key_config.threshold as nat) + lit_keys() + ser_blist(
            e.key_config.public_keys,
        ) + lit_nxt() + sap_text(e.key_config.threshold_key_digest) + lit_qtoad() + ser_dec(
            e.witness_config.tally as nat,
        ) + lit_cuts() + ser_blist(e.witness_config.prune) + lit_adds() + ser_blist(
            e.witness_config.graft,
        ) + lit_data() + ser_seallist(e.data),
        EventDataV::Ixn(e) => lit_prev() + sap_text(e.previous_event_hash) + lit_qdata()
            + ser_seallist(e.data),
        EventDataV::Vrc(e) => lit_dig() + sap_text(e.receipted_event_digest) + lit_qseal()
            + id_text(e.validator_location_seal.prefix) + lit_qdig() + sap_text(
            e.validator_location_seal.event_digest,
        ) + lit_qrb(),
    }
}

/// The canonical serialization of a whole event.
#[verifier::opaque]
pub open spec fn ser_event(e: EventV) -> Seq<u8> {
    lit_head() + id_text(e.prefix) + lit_sn() + ser_dec(e.sn as nat) + ser_ilk(e.event_data)
        + ser_body(e.event_data) + seq!['}' as u8]
}

/// The attached-signature trailer: each signature in textual form.
pub open spec fn ser_sigs(sigs: Seq<AttSigV>) -> Seq<u8>
    decreases sigs.len(),
{
    if sigs.len() == 0 {
        Seq::empty()
    } else {
        attsig_text(sigs[0]) + ser_sigs(sigs.skip(1))
    }
}

/// The wire form of a signed event: the event, a `-`, a one-character
/// signature count, and the signatures.
pub open spec fn ser_signed(v: SignedEventV) -> Seq<u8> {
    ser_event(v.event) + seq!['-' as u8, b64_char(v.signatures.len() as u8)] + ser_sigs(
        v.signatures,
    )
}

// The executable serializer: appends exactly the specified bytes.

pub fn push_qb(out: &mut Vec<u8>, b: &BasicPrefix)
    ensures
        final(out)@ == old(out)@ + qb(b@),
{
    out.push('"' as u8);
    let mut t = b.to_str();
    out.append(&mut t);
    out.push('"' as u8);
    assert(out@ =~= old(out)@ + qb(b@));
}

pub fn push_qs(out: &mut Vec<u8>, d: &SelfAddressingPrefix)
    ensures
        final(out)@ == old(out)@ + qs(d@),
{
    out.push('"' as u8);
    let mut t = d.to_str();
    out.append(&mut t);
    out.push('"' as u8);
    assert(out@ =~= old(out)@ + qs(d@));
}

pub fn push_blist_items(out: &mut Vec<u8>, v: &Vec<BasicPrefix>, i: usize)
    requires
        i <= v@.len(),
    ensures
        final(out)@ == old(out)@ + ser_blist_items(
            v@.map_values(|b: BasicPrefix| b@).skip(i as int),
        ),
    decreases v@.len() - i,
{
    let ghost ks = v@.map_values(|b: BasicPrefix| b@);
    let n = v.len() - i;
    if n == 0 {
        assert(out@ =~= old(out)@ + ser_blist_items(ks.skip(i as int)));
    } else if n == 1 {
        push_qb(out, &v[i]);
        proof {
            assert(ks.skip(i as int) =~= seq![ks[i as int]]);
            assert(out@ =~= old(out)@ + ser_blist_items(ks.skip(i as int)));
        }
    } else {
        push_qb(out, &v[i]);
        out.push(',' as u8);
        push_blist_items(out, v, i + 1);
        proof {
            assert(ks.skip(i as int).skip(1) =~= ks.skip(i as int + 1));
            assert(ks.skip(i as int)[0] == ks[i as int]);
            assert(out@ =~= old(out)@ + ser_blist_items(ks.skip(i as int)));
        }
    }
}

pub fn push_blist(out: &mut Vec<u8>, v: &Vec<BasicPrefix>)
    ensures
        final(out)@ == old(out)@ + ser_blist(v@.map_values(|b: BasicPrefix| b@)),
{
    out.push('[' as u8);
    push_blist_items(out, v, 0);
    out.push(']' as u8);
    proof {
        let ks = v@.map_values(|b: BasicPrefix| b@);
        assert(ks.skip(0) =~= ks);
        assert(out@ =~= old(out)@ + ser_blist(ks));
    }
}

pub fn push_slist_items(out: &mut Vec<u8>, v: &Vec<SelfAddressingPrefix>, i: usize)
    requires
        i <= v@.len(),
    ensures
        final(out)@ == old(out)@ + ser_slist_items(
            v@.map_values(|d: SelfAddressingPrefix| d@).skip(i as int),
        ),
    decreases v@.len() - i,
{
    let ghost ds = v@.map_values(|d: SelfAddressingPrefix| d@);
    let n = v.len() - i;
    if n == 0 {
        assert(out@ =~= old(out)@ + ser_slist_items(ds.skip(i as int)));
    } else if n == 1 {
        push_qs(out, &v[i]);
        proof {
            assert(ds.skip(i as int) =~= seq![ds[i as int]]);
            assert(out@ =~= old(out)@ + ser_slist_items(ds.skip(i as int)));
        }
    } else {
        push_qs(out, &v[i]);
        out.push(',' as u8);
        push_slist_items(out, v, i + 1);
        proof {
            assert(ds.skip(i as int).skip(1) =~= ds.skip(i as int + 1));
            assert(ds.skip(i as int)[0] == ds[i as int]);
            assert(out@ =~= old(out)@ + ser_slist_items(ds.skip(i as int)));
        }
    }
}

pub fn push_slist(out: &mut Vec<u8>, v: &Vec<SelfAddressingPrefix>)
    ensures
        final(out)@ == old(out)@ + ser_slist(v@.map_values(|d: SelfAddressingPrefix| d@)),
{
    out.push('[' as u8);
    push_slist_items(out, v, 0);
    out.push(']' as u8);
    proof {
        let ds = v@.map_values(|d: SelfAddressingPrefix| d@);
        assert(ds.skip(0) =~= ds);
        assert(out@ =~= old(out)@ + ser_slist(ds));
    }
}

pub fn push_seal(out: &mut Vec<u8>, s: &Seal)
    ensures
        final(out)@ == old(out)@ + ser_seal(s@),
{
    match s {
        Seal::Digest(d) => {
            let mut l = lit_sdig_e();
            out.append(&mut l);
            let mut t = d.dig.to_str();
            out.append(&mut t);
            let mut l2 = lit_qrb_e();
            out.append(&mut l2);
            assert(out@ =~= old(out)@ + ser_seal(s@));
        },
        Seal::Event(e) => {
            let mut l = lit_spref_e();
            out.append(&mut l);
            let mut p = e.prefix.to_str();
            out.append(&mut p);
            let mut l2 = lit_qdig_e();
            out.append(&mut l2);
            let mut t = e.event_digest.to_str();
            out.append(&mut t);
            let mut l3 = lit_qrb_e();
            out.append(&mut l3);
            assert(out@ =~= old(out)@ + ser_seal(s@));
        },
    }
}

pub fn push_seallist_items(out: &mut Vec<u8>, v: &Vec<Seal>, i: usize)
    requires
        i <= v@.len(),
    ensures
        final(out)@ == old(out)@ + ser_seallist_items(v@.map_values(|s: Seal| s@).skip(i as int)),
    decreases v@.len() - i,
{
    let ghost ss = v@.map_values(|s: Seal| s@);
    let n = v.len() - i;
    if n == 0 {
        assert(out@ =~= old(out)@ + ser_seallist_items(ss.skip(i as int)));
    } else if n == 1 {
        push_seal(out, &v[i]);
        proof {
            assert(ss.skip(i as int) =~= seq![ss[i as int]]);
            assert(out@ =~= old(out)@ + ser_seallist_items(ss.skip(i as int)));
        }
    } else {
        push_seal(out, &v[i]);
        out.push(',' as u8);
        push_seallist_items(out, v, i + 1);
        proof {
            assert(ss.skip(i as int).skip(1) =~= ss.skip(i as int + 1));
            assert(ss.skip(i as int)[0] == ss[i as int]);
            assert(out@ =~= old(out)@ + ser_seallist_items(ss.skip(i as int)));
        }
    }
}

pub fn push_seallist(out: &mut Vec<u8>, v: &Vec<Seal>)
    ensures
        final(out)@ == old(out)@ + ser_seallist(v@.map_values(|s: Seal| s@)),
{
    out.push('[' as u8);
    push_seallist_items(out, v, 0);
    out.push(']' as u8);
    proof {
        let ss = v@.map_values(|s: Seal| s@);
        assert(ss.skip(0) =~= ss);
        assert(out@ =~= old(out)@ + ser_seallist(ss));
    }
}

#[verifier::rlimit(100)]
pub fn push_body(out: &mut Vec<u8>, d: &EventData)
    ensures
        final(out)@ == old(out)@ + ser_body(d@),
{
    proof {
        reveal(ser_body);
    }
    match d {
        EventData::Icp(e) => {
            let mut l = lit_sith_e();
            out.append(&mut l);
            push_dec(out, e.key_config.threshold);
            let mut l2 = lit_keys_e();
            out.append(&mut l2);
            push_blist(out, &e.key_config.public_keys);
            let mut l3 = lit_nxt_e();
            out.append(&mut l3);
            let mut t = e.key_config.threshold_key_digest.to_str();
            out.append(&mut t);
            let mut l4 = lit_qtoad_e();
            out.append(&mut l4);
            push_dec(out, e.witness_config.tally);
            let mut l5 = lit_wits_e();
            out.append(&mut l5);
            push_blist(out, &e.witness_config.initial_witnesses);
            let mut l6 = lit_cnfg_e();
            out.append(&mut l6);
            push_slist(out, &e.inception_configuration);
            assert(out@ =~= old(out)@ + ser_body(d@));
        },
        EventData::Rot(e) => {
            let mut l = lit_prev_e();
            out.append(&mut l);
            let mut t = e.previous_event_hash.to_str();
            out.append(&mut t);
            let mut l2 = lit_qsith_e();
            out.append(&mut l2);
            push_dec(out, e.key_config.threshold);
            let mut l3 = lit_keys_e();
            out.append(&mut l3);
            push_blist(out, &e.key_config.public_keys);
            let mut l4 = lit_nxt_e();
            out.append(&mut l4);
            let mut t2 = e.key_config.threshold_key_digest.to_str();
            out.append(&mut t2);
            let mut l5 = lit_qtoad_e();
            out.append(&mut l5);
            push_dec(out, e.witness_config.tally);
            let mut l6 = lit_cuts_e();
            out.append(&mut l6);
            push_blist(out, &e.witness_config.prune);
            let mut l7 = lit_adds_e();
            out.append(&mut l7);
            push_blist(out, &e.witness_config.graft);
            let mut l8 = lit_data_e();
            out.append(&mut l8);
            push_seallist(out, &e.data);
            assert(out@ =~= old(out)@ + ser_body(d@));
        },
        EventData::Ixn(e) => {
            let mut l = lit_prev_e();
            out.append(&mut l);
            let mut t = e.previous_event_hash.to_str();
            out.append(&mut t);
            let mut l2 = lit_qdata_e();
            out.append(&mut l2);
            push_seallist(out, &e.data);
            assert(out@ =~= old(out)@ + ser_body(d@));
        },
        EventData::Vrc(e) => {
            let mut l = lit_dig_e();
            out.append(&mut l);
            let mut t = e.receipted_event_digest.to_str();
            out.append(&mut t);
            let mut l2 = lit_qseal_e();
            out.append(&mut l2);
            let mut p = e.validator_location_seal.prefix.to_str();
            out.append(&mut p);
            let mut l3 = lit_qdig_e();
            out.append(&mut l3);
            let mut t2 = e.validator_location_seal.event_digest.to_str();
            out.append(&mut t2);
            let mut l4 = lit_qrb_e();
            out.append(&mut l4);
            assert(out@ =~= old(out)@ + ser_body(d@));
        },
    }
}

#[verifier::rlimit(100)]
pub fn push_event(out: &mut Vec<u8>, e: &Event)
    ensures
        final(out)@ == old(out)@ + ser_event(e@),
{
    proof {
        reveal(ser_event);
    }
    let mut l = lit_head_e();
    out.append(&mut l);
    let mut p = e.prefix.to_str();
    out.append(&mut p);
    let mut l2 = lit_sn_e();
    out.append(&mut l2);
    push_dec(out, e.sn);
    match &e.event_data {
        EventData::Icp(_) => {
            let mut l3 = lit_ilk_icp_e();
            out.append(&mut l3);
        },
        EventData::Rot(_) => {
            let mut l3 = lit_ilk_rot_e();
            out.append(&mut l3);
        },
        EventData::Ixn(_) => {
            let mut l3 = lit_ilk_ixn_e();
            out.append(&mut l3);
        },
        EventData::Vrc(_) => {
            let mut l3 = lit_ilk_vrc_e();
            out.append(&mut l3);
        },
    }
    push_body(out, &e.event_data);
    out.push('}' as u8);
    assert(out@ =~= old(out)@ + ser_event(e@));
}

/// Serializes the body fields of an event variant alone: the canonical
/// inception data over which a SelfAddressing identifier is derived.
pub fn serialize_data(d: &EventData) -> (r: Vec<u8>)
    ensures
        r@ == ser_body(d@),
{
    let mut out: Vec<u8> = Vec::new();
    push_body(&mut out, d);
    assert(out@ =~= ser_body(d@));
    out
}

pub fn push_sigs(out: &mut Vec<u8>, v: &Vec<AttachedSignaturePrefix>, i: usize)
    requires
        i <= v@.len(),
        forall|k: int| i <= k < v@.len() ==> (#[trigger] v@[k]).index < 64,
    ensures
        final(out)@ == old(out)@ + ser_sigs(
            v@.map_values(|a: AttachedSignaturePrefix| a@).skip(i as int),
        ),
    decreases v@.len() - i,
{
    let ghost ss = v@.map_values(|a: AttachedSignaturePrefix| a@);
    if i < v.len() {
        let mut t = (&v[i]).to_str();
        out.append(&mut t);
        push_sigs(out, v, i + 1);
        proof {
            assert(ss.skip(i as int).skip(1) =~= ss.skip(i as int + 1));
            assert(ss.skip(i as int)[0] == ss[i as int]);
            assert(out@ =~= old(out)@ + ser_sigs(ss.skip(i as int)));
        }
    } else {
        assert(out@ =~= old(out)@ + ser_sigs(ss.skip(i as int)));
    }
}

impl EventMessage {
    /// The canonical serialization: the same event gives the same bytes on
    /// every agent.
    pub fn serialize(&self) -> (r: Vec<u8>)
        ensures
            r@ == ser_event(self@),
    {
        let mut out: Vec<u8> = Vec::new();
        push_event(&mut out, &self.event);
        assert(out@ =~= ser_event(self@));
        out
    }
}

impl SignedEventMessage {
    /// The wire form: the canonical event followed by the signature trailer.
    pub fn serialize(&self) -> (r: Vec<u8>)
        requires
            self.signatures@.len() < 64,
            forall|k: int|
                0 <= k < self.signatures@.len() ==> (#[trigger] self.signatures@[k]).index < 64,
        ensures
            r@ == ser_signed(self@),
    {
        let mut out: Vec<u8> = Vec::new();
        push_event(&mut out, &self.event_message.event);
        out.push('-' as u8);
        out.push(crate::base64::b64_char_e(self.signatures.len() as u8));
        push_sigs(&mut out, &self.signatures, 0);
        proof {
            let ss = self.signatures@.map_values(|a: AttachedSignaturePrefix| a@);
            assert(ss.skip(0) =~= ss);
            assert(out@ =~= ser_signed(self@));
        }
        out
    }
}

} // verus!

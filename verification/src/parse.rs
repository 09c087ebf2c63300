use vstd::prelude::*;

use crate::base64::{b64_dec, b64_inv, b64_inv_e, b64_pull};
use crate::errors::Error;
use crate::event::{
    Event, EventData, EventDataV, EventMessage, EventSeal, EventSealV, EventV, InceptionEvent,
    InceptionEventV, InceptionWitnessConfig, InteractionEvent, KeyConfig, ReceiptTransferable,
    RotationEvent, Seal, SealV, SerializationFormats, SignedEventMessage, SignedEventV,
    WitnessConfig, DigestSeal,
};
use crate::prefix::{
    AttSigV, AttachedSignaturePrefix, BasicPrefix, IdPrefV, IdentifierPrefix,
    SelfAddressingPrefix, SelfSigningPrefix,
};
use crate::ser::{
    lit_adds, lit_adds_e, lit_cnfg, lit_cnfg_e, lit_cuts, lit_cuts_e, lit_data, lit_data_e,
    lit_dig, lit_dig_e, lit_head, lit_head_e, lit_ilk_icp, lit_ilk_icp_e, lit_ilk_ixn,
    lit_ilk_ixn_e, lit_ilk_rot, lit_ilk_rot_e, lit_ilk_vrc, lit_ilk_vrc_e, lit_keys, lit_keys_e,
    lit_nxt, lit_nxt_e, lit_prev, lit_prev_e, lit_qdata, lit_qdata_e, lit_qdig, lit_qdig_e,
    lit_qrb, lit_qrb_e, lit_qseal, lit_qseal_e, lit_qsith, lit_qsith_e, lit_qtoad, lit_qtoad_e,
    lit_sdig, lit_sdig_e, lit_sith, lit_sith_e, lit_sn, lit_sn_e, lit_spref, lit_spref_e,
    lit_wits, lit_wits_e,
};

verus! {

// The canonical decoder. Specification functions define what parses and to
// what, position by position; the executable parser is proved to return
// exactly that. The decoder is strict: it accepts only the canonical grammar,
// so foreign fields, reordered fields or non-canonical numbers are rejected.

/// Expects the exact bytes `lit` at position `i`.
pub open spec fn p_lit(s: Seq<u8>, i: int, lit: Seq<u8>) -> Option<int> {
    if 0 <= i && i + lit.len() <= s.len() && s.subrange(i, i + lit.len()) == lit {
        Some(i + lit.len())
    } else {
        None
    }
}

pub open spec fn is_digit(c: u8) -> bool {
    '0' as u8 <= c && c <= '9' as u8
}

/// The length of the digit run starting at `i`.
pub open spec fn digit_run(s: Seq<u8>, i: int) -> int
    decreases s.len() - i,
{
    if 0 <= i && i < s.len() && is_digit(s[i]) {
        1 + digit_run(s, i + 1)
    } else {
        0
    }
}

/// The value of a digit string.
pub open spec fn dec_val(ds: Seq<u8>) -> int
    decreases ds.len(),
{
    if ds.len() == 0 {
        0
    } else {
        dec_val(ds.drop_last()) * 10 + (ds.last() - '0' as u8)
    }
}

/// A canonical decimal `u64`: a maximal digit run, no leading zero, in range.
pub open spec fn p_dec(s: Seq<u8>, i: int) -> Option<(u64, int)> {
    let r = digit_run(s, i);
    if r < 1 {
        None
    } else if s[i] == '0' as u8 && r > 1 {
        None
    } else if dec_val(s.subrange(i, i + r)) > u64::MAX {
        None
    } else {
        Some((dec_val(s.subrange(i, i + r)) as u64, i + r))
    }
}

/// An unquoted SelfAddressing prefix text: `E` plus 43 payload characters.
pub open spec fn p_sap_text(s: Seq<u8>, i: int) -> Option<(Seq<u8>, int)> {
    if 0 <= i && i + 44 <= s.len() && s[i] == 'E' as u8 {
        match b64_dec(s.subrange(i + 1, i + 44)) {
            Some(raw) => if raw.len() == 32 {
                Some((raw, i + 44))
            } else {
                None
            },
            None => None,
        }
    } else {
        None
    }
}

/// An unquoted Basic prefix text: `D` plus 43 payload characters.
pub open spec fn p_basic_text(s: Seq<u8>, i: int) -> Option<(Seq<u8>, int)> {
    if 0 <= i && i + 44 <= s.len() && s[i] == 'D' as u8 {
        match b64_dec(s.subrange(i + 1, i + 44)) {
            Some(raw) => if raw.len() == 32 {
                Some((raw, i + 44))
            } else {
                None
            },
            None => None,
        }
    } else {
        None
    }
}

/// An unquoted identifier prefix text, either variant.
pub open spec fn p_id_text(s: Seq<u8>, i: int) -> Option<(IdPrefV, int)> {
    if 0 <= i && i < s.len() && s[i] == 'D' as u8 {
        match p_basic_text(s, i) {
            Some((raw, j)) => Some((IdPrefV::Basic(raw), j)),
            None => None,
        }
    } else if 0 <= i && i < s.len() && s[i] == 'E' as u8 {
        match p_sap_text(s, i) {
            Some((raw, j)) => Some((IdPrefV::SelfAddressing(raw), j)),
            None => None,
        }
    } else {
        None
    }
}

/// An attached signature text: `A`, one index character, 86 payload characters.
pub open spec fn p_attsig(s: Seq<u8>, i: int) -> Option<(AttSigV, int)> {
    if 0 <= i && i + 88 <= s.len() && s[i] == 'A' as u8 {
        match b64_inv(s[i + 1]) {
            Some(idx) => match b64_dec(s.subrange(i + 2, i + 88)) {
                Some(sg) => if sg.len() == 64 {
                    Some((AttSigV { index: idx, sig: sg }, i + 88))
                } else {
                    None
                },
                None => None,
            },
            None => None,
        }
    } else {
        None
    }
}

/// A quoted Basic prefix.
pub open spec fn p_qb(s: Seq<u8>, i: int) -> Option<(Seq<u8>, int)> {
    if 0 <= i && i < s.len() && s[i] == '"' as u8 {
        match p_basic_text(s, i + 1) {
            Some((raw, j)) => if j < s.len() && s[j] == '"' as u8 {
                Some((raw, j + 1))
            } else {
                None
            },
            None => None,
        }
    } else {
        None
    }
}

/// A quoted SelfAddressing prefix.
pub open spec fn p_qs(s: Seq<u8>, i: int) -> Option<(Seq<u8>, int)> {
    if 0 <= i && i < s.len() && s[i] == '"' as u8 {
        match p_sap_text(s, i + 1) {
            Some((raw, j)) => if j < s.len() && s[j] == '"' as u8 {
                Some((raw, j + 1))
            } else {
                None
            },
            None => None,
        }
    } else {
        None
    }
}

/// One or more quoted Basic prefixes, comma-separated, up to and including the
/// closing bracket.
pub open spec fn p_blist_items(s: Seq<u8>, i: int) -> Option<(Seq<Seq<u8>>, int)>
    decreases s.len() - i,
{
    match p_qb(s, i) {
        Some((k, j)) => if i < j && j < s.len() && s[j] == ',' as u8 {
            match p_blist_items(s, j + 1) {
                Some((rest, e)) => Some((seq![k] + rest, e)),
                None => None,
            }
        } else if j < s.len() && s[j] == ']' as u8 {
            Some((seq![k], j + 1))
        } else {
            None
        },
        None => None,
    }
}

/// A JSON list of quoted Basic prefixes.
pub open spec fn p_blist(s: Seq<u8>, i: int) -> Option<(Seq<Seq<u8>>, int)> {
    if 0 <= i && i < s.len() && s[i] == '[' as u8 {
        if i + 1 < s.len() && s[i + 1] == ']' as u8 {
            Some((Seq::empty(), i + 2))
        } else {
            p_blist_items(s, i + 1)
        }
    } else {
        None
    }
}

pub open spec fn p_slist_items(s: Seq<u8>, i: int) -> Option<(Seq<Seq<u8>>, int)>
    decreases s.len() - i,
{
    match p_qs(s, i) {
        Some((d, j)) => if i < j && j < s.len() && s[j] == ',' as u8 {
            match p_slist_items(s, j + 1) {
                Some((rest, e)) => Some((seq![d] + rest, e)),
                None => None,
            }
        } else if j < s.len() && s[j] == ']' as u8 {
            Some((seq![d], j + 1))
        } else {
            None
        },
        None => None,
    }
}

/// A JSON list of quoted SelfAddressing prefixes.
pub open spec fn p_slist(s: Seq<u8>, i: int) -> Option<(Seq<Seq<u8>>, int)> {
    if 0 <= i && i < s.len() && s[i] == '[' as u8 {
        if i + 1 < s.len() && s[i + 1] == ']' as u8 {
            Some((Seq::empty(), i + 2))
        } else {
            p_slist_items(s, i + 1)
        }
    } else {
        None
    }
}

/// A seal object, a digest seal or an event seal, told apart by its first key.
pub open spec fn p_seal(s: Seq<u8>, i: int) -> Option<(SealV, int)> {
    match p_lit(s, i, lit_sdig()) {
        Some(j) => match p_sap_text(s, j) {
            Some((d, j2)) => match p_lit(s, j2, lit_qrb()) {
                Some(j3) => Some((SealV::Digest(d), j3)),
                None => None,
            },
            None => None,
        },
        None => match p_lit(s, i, lit_spref()) {
            Some(j) => match p_id_text(s, j) {
                Some((p, j2)) => match p_lit(s, j2, lit_qdig()) {
                    Some(j3) => match p_sap_text(s, j3) {
                        Some((d, j4)) => match p_lit(s, j4, lit_qrb()) {
                            Some(j5) => Some(
                                (SealV::Event(EventSealV { prefix: p, event_digest: d }), j5),
                            ),
                            None => None,
                        },
                        None => None,
                    },
                    None => None,
                },
                None => None,
            },
            None => None,
        },
    }
}

pub open spec fn p_seallist_items(s: Seq<u8>, i: int) -> Option<(Seq<SealV>, int)>
    decreases s.len() - i,
{
    match p_seal(s, i) {
        Some((x, j)) => if i < j && j < s.len() && s[j] == ',' as u8 {
            match p_seallist_items(s, j + 1) {
                Some((rest, e)) => Some((seq![x] + rest, e)),
                None => None,
            }
        } else if j < s.len() && s[j] == ']' as u8 {
            Some((seq![x], j + 1))
        } else {
            None
        },
        None => None,
    }
}

/// A JSON list of seal objects.
pub open spec fn p_seallist(s: Seq<u8>, i: int) -> Option<(Seq<SealV>, int)> {
    if 0 <= i && i < s.len() && s[i] == '[' as u8 {
        if i + 1 < s.len() && s[i + 1] == ']' as u8 {
            Some((Seq::empty(), i + 2))
        } else {
            p_seallist_items(s, i + 1)
        }
    } else {
        None
    }
}

/// The inception body fields.
#[verifier::opaque]
pub open spec fn p_body_icp(s: Seq<u8>, i: int) -> Option<(EventDataV, int)> {
    match p_lit(s, i, lit_sith()) {
        Some(j1) => match p_dec(s, j1) {
            Some((threshold, j2)) => match p_lit(s, j2, lit_keys()) {
                Some(j3) => match p_blist(s, j3) {
                    Some((keys, j4)) => match p_lit(s, j4, lit_nxt()) {
                        Some(j5) => match p_sap_text(s, j5) {
                            Some((nxt, j6)) => match p_lit(s, j6, lit_qtoad()) {
                                Some(j7) => match p_dec(s, j7) {
                                    Some((tally, j8)) => match p_lit(s, j8, lit_wits()) {
                                        Some(j9) => match p_blist(s, j9) {
                                            Some((wits, j10)) => match p_lit(s, j10, lit_cnfg()) {
                                                Some(j11) => match p_slist(s, j11) {
                                                    Some((cnfg, j12)) => Some(
                                                        (
                                                            EventDataV::Icp(
                                                                InceptionEventV {
                                                                    key_config: crate::event::KeyConfigV {
                                                                        threshold,
                                                                        public_keys: keys,
                                                                        threshold_key_digest: nxt,
                                                                    },
                                                                    witness_config: crate::event::InceptionWitnessConfigV {
                                                                        tally,
                                                                        initial_witnesses: wits,
                                                                    },
                                                                    inception_configuration: cnfg,
                                                                },
                                                            ),
                                                            j12,
                                                        ),
                                                    ),
                                                    None => None,
                                                },
                                                None => None,
                                            },
                                            None => None,
                                        },
                                        None => None,
                                    },
                                    None => None,
                                },
                                None => None,
                            },
                            None => None,
                        },
                        None => None,
                    },
                    None => None,
                },
                None => None,
            },
            None => None,
        },
        None => None,
    }
}

/// The rotation body fields.
#[verifier::opaque]
pub open spec fn p_body_rot(s: Seq<u8>, i: int) -> Option<(EventDataV, int)> {
    match p_lit(s, i, lit_prev()) {
        Some(j1) => match p_sap_text(s, j1) {
            Some((prev, j2)) => match p_lit(s, j2, lit_qsith()) {
                Some(j3) => match p_dec(s, j3) {
                    Some((threshold, j4)) => match p_lit(s, j4, lit_keys()) {
                        Some(j5) => match p_blist(s, j5) {
                            Some((keys, j6)) => match p_lit(s, j6, lit_nxt()) {
                                Some(j7) => match p_sap_text(s, j7) {
                                    Some((nxt, j8)) => match p_lit(s, j8, lit_qtoad()) {
                                        Some(j9) => match p_dec(s, j9) {
                                            Some((tally, j10)) => match p_lit(s, j10, lit_cuts()) {
                                                Some(j11) => match p_blist(s, j11) {
                                                    Some((prune, j12)) => match p_lit(
                                                        s,
                                                        j12,
                                                        lit_adds(),
                                                    ) {
                                                        Some(j13) => match p_blist(s, j13) {
                                                            Some((graft, j14)) => match p_lit(
                                                                s,
                                                                j14,
                                                                lit_data(),
                                                            ) {
                                                                Some(j15) => match p_seallist(
                                                                    s,
                                                                    j15,
                                                                ) {
                                                                    Some((data, j16)) => Some(
                                                                        (
                                                                            EventDataV::Rot(
                                                                                crate::event::RotationEventV {
                                                                                    previous_event_hash: prev,
                                                                                    key_config: crate::event::KeyConfigV {
                                                                                        threshold,
                                                                                        public_keys: keys,
                                                                                        threshold_key_digest: nxt,
                                                                                    },
                                                                                    witness_config: crate::event::WitnessConfigV {
                                                                                        tally,
                                                                                        prune,
                                                                                        graft,
                                                                                    },
                                                                                    data,
                                                                                },
                                                                            ),
                                                                            j16,
                                                                        ),
                                                                    ),
                                                                    None => None,
                                                                },
                                                                None => None,
                                                            },
                                                            None => None,
                                                        },
                                                        None => None,
                                                    },
                                                    None => None,
                                                },
                                                None => None,
                                            },
                                            None => None,
                                        },
                                        None => None,
                                    },
                                    None => None,
                                },
                                None => None,
                            },
                            None => None,
                        },
                        None => None,
                    },
                    None => None,
                },
                None => None,
            },
            None => None,
        },
        None => None,
    }
}

/// The interaction body fields.
#[verifier::opaque]
pub open spec fn p_body_ixn(s: Seq<u8>, i: int) -> Option<(EventDataV, int)> {
    match p_lit(s, i, lit_prev()) {
        Some(j1) => match p_sap_text(s, j1) {
            Some((prev, j2)) => match p_lit(s, j2, lit_qdata()) {
                Some(j3) => match p_seallist(s, j3) {
                    Some((data, j4)) => Some(
                        (
                            EventDataV::Ixn(
                                crate::event::InteractionEventV {
                                    previous_event_hash: prev,
                                    data,
                                },
                            ),
                            j4,
                        ),
                    ),
                    None => None,
                },
                None => None,
            },
            None => None,
        },
        None => None,
    }
}

/// The receipt body fields.
#[verifier::opaque]
pub open spec fn p_body_vrc(s: Seq<u8>, i: int) -> Option<(EventDataV, int)> {
    match p_lit(s, i, lit_dig()) {
        Some(j1) => match p_sap_text(s, j1) {
            Some((dig, j2)) => match p_lit(s, j2, lit_qseal()) {
                Some(j3) => match p_id_text(s, j3) {
                    Some((p, j4)) => match p_lit(s, j4, lit_qdig()) {
                        Some(j5) => match p_sap_text(s, j5) {
                            Some((d, j6)) => match p_lit(s, j6, lit_qrb()) {
                                Some(j7) => Some(
                                    (
                                        EventDataV::Vrc(
                                            crate::event::ReceiptTransferableV {
                                                receipted_event_digest: dig,
                                                validator_location_seal: EventSealV {
                                                    prefix: p,
                                                    event_digest: d,
                                                },
                                            },
                                        ),
                                        j7,
                                    ),
                                ),
                                None => None,
                            },
                            None => None,
                        },
                        None => None,
                    },
                    None => None,
                },
                None => None,
            },
            None => None,
        },
        None => None,
    }
}

/// A whole canonical event.
pub open spec fn p_event(s: Seq<u8>, i: int) -> Option<(EventV, int)> {
    match p_lit(s, i, lit_head()) {
        Some(j1) => match p_id_text(s, j1) {
            Some((pref, j2)) => match p_lit(s, j2, lit_sn()) {
                Some(j3) => match p_dec(s, j3) {
                    Some((sn, j4)) => {
                        let body = match p_lit(s, j4, lit_ilk_icp()) {
                            Some(j5) => p_body_icp(s, j5),
                            None => match p_lit(s, j4, lit_ilk_rot()) {
                                Some(j5) => p_body_rot(s, j5),
                                None => match p_lit(s, j4, lit_ilk_ixn()) {
                                    Some(j5) => p_body_ixn(s, j5),
                                    None => match p_lit(s, j4, lit_ilk_vrc()) {
                                        Some(j5) => p_body_vrc(s, j5),
                                        None => None,
                                    },
                                },
                            },
                        };
                        match body {
                            Some((d, j6)) => if j6 < s.len() && s[j6] == '}' as u8 {
                                Some((EventV { prefix: pref, sn, event_data: d }, j6 + 1))
                            } else {
                                None
                            },
                            None => None,
                        }
                    },
                    None => None,
                },
                None => None,
            },
            None => None,
        },
        None => None,
    }
}

/// Exactly `n` attached signature texts.
pub open spec fn p_sigs(s: Seq<u8>, i: int, n: int) -> Option<(Seq<AttSigV>, int)>
    decreases n,
{
    if n <= 0 {
        Some((Seq::empty(), i))
    } else {
        match p_attsig(s, i) {
            Some((a, j)) => match p_sigs(s, j, n - 1) {
                Some((rest, e)) => Some((seq![a] + rest, e)),
                None => None,
            },
            None => None,
        }
    }
}

/// A whole signed event: event, `-`, count character, signatures.
pub open spec fn p_signed(s: Seq<u8>, i: int) -> Option<(SignedEventV, int)> {
    match p_event(s, i) {
        Some((e, j)) => if j + 2 <= s.len() && s[j] == '-' as u8 {
            match b64_inv(s[j + 1]) {
                Some(n) => match p_sigs(s, j + 2, n as int) {
                    Some((sigs, e2)) => Some((SignedEventV { event: e, signatures: sigs }, e2)),
                    None => None,
                },
                None => None,
            }
        } else {
            None
        },
        None => None,
    }
}

/// A stream of signed events covering `s[i..]` exactly.
pub open spec fn p_stream(s: Seq<u8>, i: int) -> Option<(Seq<SignedEventV>, int)>
    decreases s.len() - i,
{
    if i == s.len() {
        Some((Seq::empty(), i))
    } else {
        match p_signed(s, i) {
            Some((v, j)) => if i < j && j <= s.len() {
                match p_stream(s, j) {
                    Some((rest, e)) => Some((seq![v] + rest, e)),
                    None => None,
                }
            } else {
                None
            },
            None => None,
        }
    }
}

// Facts about decimal forms, shared by the executable parser and the
// round-trip proofs.

pub proof fn lemma_digit_run_exact(s: Seq<u8>, i: int, k: int)
    requires
        0 <= i,
        0 <= k,
        i + k <= s.len(),
        forall|t: int| 0 <= t < k ==> is_digit(#[trigger] s[i + t]),
        i + k == s.len() || !is_digit(s[i + k]),
    ensures
        digit_run(s, i) == k,
    decreases k,
{
    if k == 0 {
    } else {
        assert(is_digit(s[i + 0]));
        assert forall|t: int| 0 <= t < k - 1 implies is_digit(#[trigger] s[i + 1 + t]) by {
            assert(is_digit(s[i + (t + 1)]));
        }
        lemma_digit_run_exact(s, i + 1, k - 1);
    }
}

pub proof fn lemma_dec_val_bounds(ds: Seq<u8>, k: int)
    requires
        0 <= k <= ds.len(),
        forall|t: int| 0 <= t < ds.len() ==> is_digit(#[trigger] ds[t]),
    ensures
        dec_val(ds) >= 0,
        dec_val(ds) >= dec_val(ds.subrange(0, k)),
    decreases ds.len(),
{
    if ds.len() == 0 {
        assert(ds.subrange(0, k) =~= ds);
    } else {
        let dl = ds.drop_last();
        assert forall|t: int| 0 <= t < dl.len() implies is_digit(#[trigger] dl[t]) by {
            assert(dl[t] == ds[t]);
        }
        assert(ds.last() - '0' as u8 >= 0);
        if k == ds.len() {
            lemma_dec_val_bounds(dl, dl.len() as int);
            assert(ds.subrange(0, k) =~= ds);
        } else {
            lemma_dec_val_bounds(dl, k);
            assert(dl.subrange(0, k) =~= ds.subrange(0, k));
        }
    }
}

pub proof fn lemma_ser_dec_props(n: nat)
    ensures
        crate::ser::ser_dec(n).len() >= 1,
        forall|t: int|
            0 <= t < crate::ser::ser_dec(n).len() ==> is_digit(
                #[trigger] crate::ser::ser_dec(n)[t],
            ),
        crate::ser::ser_dec(n).len() > 1 ==> crate::ser::ser_dec(n)[0] != '0' as u8,
        dec_val(crate::ser::ser_dec(n)) == n,
    decreases n,
{
    if n < 10 {
        assert(crate::ser::ser_dec(n) =~= seq![('0' as u8 + n) as u8]);
        assert(crate::ser::ser_dec(n).drop_last() =~= Seq::<u8>::empty());
        assert(dec_val(Seq::<u8>::empty()) == 0);
        assert(crate::ser::ser_dec(n).last() == ('0' as u8 + n) as u8);
        assert(dec_val(crate::ser::ser_dec(n)) == dec_val(crate::ser::ser_dec(n).drop_last()) * 10
            + (crate::ser::ser_dec(n).last() - '0' as u8));
        assert(dec_val(crate::ser::ser_dec(n)) == n);
    } else {
        lemma_ser_dec_props(n / 10);
        let pre = crate::ser::ser_dec(n / 10);
        let d = ('0' as u8 + n % 10) as u8;
        assert(n % 10 < 10) by (nonlinear_arith);
        assert((n / 10) * 10 + n % 10 == n) by (nonlinear_arith);
        assert(n / 10 >= 1);
        assert(crate::ser::ser_dec(n) == pre.push(d));
        assert(crate::ser::ser_dec(n).drop_last() =~= pre);
        assert(crate::ser::ser_dec(n).last() == d);
        assert(d - '0' as u8 == n % 10);
        assert(dec_val(crate::ser::ser_dec(n)) == dec_val(pre) * 10 + (d - '0' as u8));
        assert forall|t: int|
            0 <= t < crate::ser::ser_dec(n).len() implies is_digit(
            #[trigger] crate::ser::ser_dec(n)[t],
        ) by {
            if t < pre.len() {
                assert(crate::ser::ser_dec(n)[t] == pre[t]);
            }
        }
        assert(crate::ser::ser_dec(n)[0] == pre[0]);
        if n / 10 < 10 {
            assert(pre =~= seq![('0' as u8 + n / 10) as u8]);
            assert(pre[0] != '0' as u8);
        } else {
            lemma_ser_dec_props(n / 10 / 10);
            assert(pre == crate::ser::ser_dec(n / 10 / 10).push(('0' as u8 + (n / 10) % 10) as u8));
            assert(pre.len() > 1);
        }
    }
}

/// Completeness of the decimal parser: the canonical form of `n`, followed by
/// a non-digit or the end, parses back to `n`.
pub proof fn lemma_p_dec_complete(s: Seq<u8>, i: int, n: u64)
    requires
        0 <= i,
        i + crate::ser::ser_dec(n as nat).len() <= s.len(),
        s.subrange(i, i + crate::ser::ser_dec(n as nat).len() as int) == crate::ser::ser_dec(
            n as nat,
        ),
        i + crate::ser::ser_dec(n as nat).len() == s.len() || !is_digit(
            s[i + crate::ser::ser_dec(n as nat).len()],
        ),
    ensures
        p_dec(s, i) == Some((n, i + crate::ser::ser_dec(n as nat).len() as int)),
{
    let ds = crate::ser::ser_dec(n as nat);
    lemma_ser_dec_props(n as nat);
    assert forall|t: int| 0 <= t < ds.len() implies is_digit(#[trigger] s[i + t]) by {
        assert(s[i + t] == s.subrange(i, i + ds.len() as int)[t]);
    }
    lemma_digit_run_exact(s, i, ds.len() as int);
    assert(s[i] == s.subrange(i, i + ds.len() as int)[0]);
}

// The executable parser.

/// Consumes the exact bytes `lit` at `i`, or reports that they are not there.
pub fn expect(s: &[u8], i: usize, lit: &[u8]) -> (r: Option<usize>)
    requires
        i <= s@.len(),
    ensures
        match r {
            Some(j) => i <= j && j <= s@.len() && p_lit(s@, i as int, lit@) == Some(j as int),
            None => p_lit(s@, i as int, lit@) is None,
        },
{
    if s.len() - i < lit.len() {
        return None;
    }
    let mut k: usize = 0;
    while k < lit.len()
        invariant
            i + lit@.len() <= s@.len(),
            s@.len() <= usize::MAX,
            0 <= k <= lit@.len(),
            forall|t: int| 0 <= t < k ==> s@[i + t] == lit@[t],
        decreases lit@.len() - k,
    {
        if s[i + k] != lit[k] {
            proof {
                assert(s@.subrange(i as int, i as int + lit@.len() as int)[k as int] != lit@[k as int]);
            }
            return None;
        }
        k = k + 1;
    }
    proof {
        assert(s@.subrange(i as int, i as int + lit@.len() as int) =~= lit@);
    }
    Some(i + lit.len())
}

/// Parses a canonical decimal `u64`.
pub fn parse_dec(s: &[u8], i: usize) -> (r: Option<(u64, usize)>)
    requires
        i <= s@.len(),
    ensures
        match r {
            Some((n, j)) => i <= j && j <= s@.len() && p_dec(s@, i as int) == Some((n, j as int)),
            None => p_dec(s@, i as int) is None,
        },
{
    let mut j = i;
    while j < s.len() && s[j] >= '0' as u8 && s[j] <= '9' as u8
        invariant
            i <= j <= s@.len(),
            forall|t: int| i <= t < j ==> is_digit(#[trigger] s@[t]),
        decreases s@.len() - j,
    {
        j = j + 1;
    }
    proof {
        assert forall|t: int| 0 <= t < j - i implies is_digit(#[trigger] s@[i as int + t]) by {
            assert(is_digit(s@[i as int + t]));
        }
        lemma_digit_run_exact(s@, i as int, j as int - i as int);
    }
    if j == i {
        return None;
    }
    if s[i] == '0' as u8 && j - i > 1 {
        return None;
    }
    let ghost full = s@.subrange(i as int, j as int);
    proof {
        assert forall|t: int| 0 <= t < full.len() implies is_digit(#[trigger] full[t]) by {
            assert(full[t] == s@[i + t]);
        }
    }
    let mut value: u64 = 0;
    let mut k = i;
    while k < j
        invariant
            i <= k <= j <= s@.len(),
            forall|t: int| 0 <= t < full.len() ==> is_digit(#[trigger] full[t]),
            full == s@.subrange(i as int, j as int),
            digit_run(s@, i as int) == j - i,
            !(s@[i as int] == '0' as u8 && j - i > 1),
            value == dec_val(s@.subrange(i as int, k as int)),
        decreases j - k,
    {
        proof {
            assert(is_digit(full[k - i]));
            assert(full[k - i] == s@[k as int]);
        }
        let d = s[k] - '0' as u8;
        proof {
            assert(s@.subrange(i as int, k as int + 1).drop_last() =~= s@.subrange(
                i as int,
                k as int,
            ));
            assert(s@.subrange(i as int, k as int + 1).last() == s@[k as int]);
        }
        if value > (u64::MAX - (d as u64)) / 10 {
            proof {
                assert((value as int) * 10 + (d as int) > u64::MAX as int) by (nonlinear_arith)
                    requires
                        value as int > (u64::MAX as int - d as int) / 10,
                        0 <= d as int <= 9,
                ;
                assert(dec_val(s@.subrange(i as int, k as int + 1)) == (value as int) * 10 + (
                d as int));
                assert(full.subrange(0, k as int + 1 - i) =~= s@.subrange(i as int, k as int + 1));
                lemma_dec_val_bounds(full, k as int + 1 - i);
                assert(dec_val(full) > u64::MAX);
            }
            return None;
        }
        value = value * 10 + (d as u64);
        k = k + 1;
    }
    proof {
        assert(s@.subrange(i as int, k as int) == full);
    }
    Some((value, j))
}

/// Parses an unquoted SelfAddressing prefix text.
pub fn parse_sap_text(s: &[u8], i: usize) -> (r: Option<(SelfAddressingPrefix, usize)>)
    requires
        i <= s@.len(),
    ensures
        match r {
            Some((d, j)) => i <= j && j <= s@.len() && p_sap_text(s@, i as int) == Some(
                (d@, j as int),
            ),
            None => p_sap_text(s@, i as int) is None,
        },
{
    if s.len() - i < 44 {
        return None;
    }
    if s[i] != 'E' as u8 {
        return None;
    }
    let mut raw: Vec<u8> = Vec::new();
    let ok = b64_pull(&mut raw, s, i + 1, i + 44);
    if !ok {
        return None;
    }
    if raw.len() != 32 {
        return None;
    }
    Some((SelfAddressingPrefix { raw }, i + 44))
}

/// Parses an unquoted Basic prefix text.
pub fn parse_basic_text(s: &[u8], i: usize) -> (r: Option<(BasicPrefix, usize)>)
    requires
        i <= s@.len(),
    ensures
        match r {
            Some((b, j)) => i <= j && j <= s@.len() && p_basic_text(s@, i as int) == Some(
                (b@, j as int),
            ),
            None => p_basic_text(s@, i as int) is None,
        },
{
    if s.len() - i < 44 {
        return None;
    }
    if s[i] != 'D' as u8 {
        return None;
    }
    let mut raw: Vec<u8> = Vec::new();
    let ok = b64_pull(&mut raw, s, i + 1, i + 44);
    if !ok {
        return None;
    }
    if raw.len() != 32 {
        return None;
    }
    Some((BasicPrefix { raw }, i + 44))
}

/// Parses an unquoted identifier prefix text.
pub fn parse_id_text(s: &[u8], i: usize) -> (r: Option<(IdentifierPrefix, usize)>)
    requires
        i <= s@.len(),
    ensures
        match r {
            Some((p, j)) => i <= j && j <= s@.len() && p_id_text(s@, i as int) == Some(
                (p@, j as int),
            ),
            None => p_id_text(s@, i as int) is None,
        },
{
    if i < s.len() && s[i] == 'D' as u8 {
        match parse_basic_text(s, i) {
            Some((b, j)) => Some((IdentifierPrefix::Basic(b), j)),
            None => None,
        }
    } else if i < s.len() && s[i] == 'E' as u8 {
        match parse_sap_text(s, i) {
            Some((d, j)) => Some((IdentifierPrefix::SelfAddressing(d), j)),
            None => None,
        }
    } else {
        None
    }
}

/// Parses an attached signature text.
pub fn parse_attsig(s: &[u8], i: usize) -> (r: Option<(AttachedSignaturePrefix, usize)>)
    requires
        i <= s@.len(),
    ensures
        match r {
            Some((a, j)) => i <= j && j <= s@.len() && p_attsig(s@, i as int) == Some(
                (a@, j as int),
            ),
            None => p_attsig(s@, i as int) is None,
        },
{
    if s.len() - i < 88 {
        return None;
    }
    if s[i] != 'A' as u8 {
        return None;
    }
    match b64_inv_e(s[i + 1]) {
        Some(idx) => {
            let mut sg: Vec<u8> = Vec::new();
            let ok = b64_pull(&mut sg, s, i + 2, i + 88);
            if !ok {
                return None;
            }
            if sg.len() != 64 {
                return None;
            }
            Some((AttachedSignaturePrefix { index: idx, sig: SelfSigningPrefix { raw: sg } }, i
                + 88))
        },
        None => None,
    }
}

/// Parses a quoted Basic prefix.
pub fn parse_qb(s: &[u8], i: usize) -> (r: Option<(BasicPrefix, usize)>)
    requires
        i <= s@.len(),
    ensures
        match r {
            Some((b, j)) => i <= j && j <= s@.len() && p_qb(s@, i as int) == Some((b@, j as int)),
            None => p_qb(s@, i as int) is None,
        },
{
    if i < s.len() && s[i] == '"' as u8 {
        match parse_basic_text(s, i + 1) {
            Some((b, j)) => if j < s.len() && s[j] == '"' as u8 {
                Some((b, j + 1))
            } else {
                None
            },
            None => None,
        }
    } else {
        None
    }
}

/// Parses a quoted SelfAddressing prefix.
pub fn parse_qs(s: &[u8], i: usize) -> (r: Option<(SelfAddressingPrefix, usize)>)
    requires
        i <= s@.len(),
    ensures
        match r {
            Some((d, j)) => i <= j && j <= s@.len() && p_qs(s@, i as int) == Some((d@, j as int)),
            None => p_qs(s@, i as int) is None,
        },
{
    if i < s.len() && s[i] == '"' as u8 {
        match parse_sap_text(s, i + 1) {
            Some((d, j)) => if j < s.len() && s[j] == '"' as u8 {
                Some((d, j + 1))
            } else {
                None
            },
            None => None,
        }
    } else {
        None
    }
}

pub fn parse_blist_items(s: &[u8], i: usize) -> (r: Option<(Vec<BasicPrefix>, usize)>)
    requires
        i <= s@.len(),
    ensures
        match r {
            Some((v, j)) => i <= j && j <= s@.len() && p_blist_items(s@, i as int) == Some(
                (v@.map_values(|b: BasicPrefix| b@), j as int),
            ),
            None => p_blist_items(s@, i as int) is None,
        },
    decreases s@.len() - i,
{
    match parse_qb(s, i) {
        Some((k0, j)) => {
            if i < j && j < s.len() && s[j] == ',' as u8 {
                match parse_blist_items(s, j + 1) {
                    Some((mut rest, e)) => {
                        let ghost rest0 = rest@;
                        rest.insert(0, k0);
                        proof {
                            assert(rest@.map_values(|b: BasicPrefix| b@) =~= seq![k0@]
                                + rest0.map_values(|b: BasicPrefix| b@));
                        }
                        Some((rest, e))
                    },
                    None => None,
                }
            } else if j < s.len() && s[j] == ']' as u8 {
                let mut v: Vec<BasicPrefix> = Vec::new();
                v.push(k0);
                proof {
                    assert(v@.map_values(|b: BasicPrefix| b@) =~= seq![v@[0]@]);
                }
                Some((v, j + 1))
            } else {
                None
            }
        },
        None => None,
    }
}

pub fn parse_blist(s: &[u8], i: usize) -> (r: Option<(Vec<BasicPrefix>, usize)>)
    requires
        i <= s@.len(),
    ensures
        match r {
            Some((v, j)) => i <= j && j <= s@.len() && p_blist(s@, i as int) == Some(
                (v@.map_values(|b: BasicPrefix| b@), j as int),
            ),
            None => p_blist(s@, i as int) is None,
        },
{
    if i < s.len() && s[i] == '[' as u8 {
        if i + 1 < s.len() && s[i + 1] == ']' as u8 {
            let v: Vec<BasicPrefix> = Vec::new();
            proof {
                assert(v@.map_values(|b: BasicPrefix| b@) =~= Seq::<Seq<u8>>::empty());
            }
            Some((v, i + 2))
        } else {
            parse_blist_items(s, i + 1)
        }
    } else {
        None
    }
}

pub fn parse_slist_items(s: &[u8], i: usize) -> (r: Option<(Vec<SelfAddressingPrefix>, usize)>)
    requires
        i <= s@.len(),
    ensures
        match r {
            Some((v, j)) => i <= j && j <= s@.len() && p_slist_items(s@, i as int) == Some(
                (v@.map_values(|d: SelfAddressingPrefix| d@), j as int),
            ),
            None => p_slist_items(s@, i as int) is None,
        },
    decreases s@.len() - i,
{
    match parse_qs(s, i) {
        Some((d0, j)) => {
            if i < j && j < s.len() && s[j] == ',' as u8 {
                match parse_slist_items(s, j + 1) {
                    Some((mut rest, e)) => {
                        let ghost rest0 = rest@;
                        rest.insert(0, d0);
                        proof {
                            assert(rest@.map_values(|d: SelfAddressingPrefix| d@) =~= seq![d0@]
                                + rest0.map_values(|d: SelfAddressingPrefix| d@));
                        }
                        Some((rest, e))
                    },
                    None => None,
                }
            } else if j < s.len() && s[j] == ']' as u8 {
                let mut v: Vec<SelfAddressingPrefix> = Vec::new();
                v.push(d0);
                proof {
                    assert(v@.map_values(|d: SelfAddressingPrefix| d@) =~= seq![v@[0]@]);
                }
                Some((v, j + 1))
            } else {
                None
            }
        },
        None => None,
    }
}

pub fn parse_slist(s: &[u8], i: usize) -> (r: Option<(Vec<SelfAddressingPrefix>, usize)>)
    requires
        i <= s@.len(),
    ensures
        match r {
            Some((v, j)) => i <= j && j <= s@.len() && p_slist(s@, i as int) == Some(
                (v@.map_values(|d: SelfAddressingPrefix| d@), j as int),
            ),
            None => p_slist(s@, i as int) is None,
        },
{
    if i < s.len() && s[i] == '[' as u8 {
        if i + 1 < s.len() && s[i + 1] == ']' as u8 {
            let v: Vec<SelfAddressingPrefix> = Vec::new();
            proof {
                assert(v@.map_values(|d: SelfAddressingPrefix| d@) =~= Seq::<Seq<u8>>::empty());
            }
            Some((v, i + 2))
        } else {
            parse_slist_items(s, i + 1)
        }
    } else {
        None
    }
}

pub fn parse_seal(s: &[u8], i: usize) -> (r: Option<(Seal, usize)>)
    requires
        i <= s@.len(),
    ensures
        match r {
            Some((x, j)) => i <= j && j <= s@.len() && p_seal(s@, i as int) == Some(
                (x@, j as int),
            ),
            None => p_seal(s@, i as int) is None,
        },
{
    let ld = lit_sdig_e();
    match expect(s, i, ld.as_slice()) {
        Some(j) => {
            match parse_sap_text(s, j) {
                Some((d, j2)) => {
                    let lq = lit_qrb_e();
                    match expect(s, j2, lq.as_slice()) {
                        Some(j3) => Some((Seal::Digest(DigestSeal { dig: d }), j3)),
                        None => None,
                    }
                },
                None => None,
            }
        },
        None => {
            let lp = lit_spref_e();
            match expect(s, i, lp.as_slice()) {
                Some(j) => {
                    match parse_id_text(s, j) {
                        Some((p, j2)) => {
                            let lq = lit_qdig_e();
                            match expect(s, j2, lq.as_slice()) {
                                Some(j3) => {
                                    match parse_sap_text(s, j3) {
                                        Some((d, j4)) => {
                                            let lr = lit_qrb_e();
                                            match expect(s, j4, lr.as_slice()) {
                                                Some(j5) => Some(
                                                    (
                                                        Seal::Event(
                                                            EventSeal {
                                                                prefix: p,
                                                                event_digest: d,
                                                            },
                                                        ),
                                                        j5,
                                                    ),
                                                ),
                                                None => None,
                                            }
                                        },
                                        None => None,
                                    }
                                },
                                None => None,
                            }
                        },
                        None => None,
                    }
                },
                None => None,
            }
        },
    }
}

pub fn parse_seallist_items(s: &[u8], i: usize) -> (r: Option<(Vec<Seal>, usize)>)
    requires
        i <= s@.len(),
    ensures
        match r {
            Some((v, j)) => i <= j && j <= s@.len() && p_seallist_items(s@, i as int) == Some(
                (v@.map_values(|x: Seal| x@), j as int),
            ),
            None => p_seallist_items(s@, i as int) is None,
        },
    decreases s@.len() - i,
{
    match parse_seal(s, i) {
        Some((x0, j)) => {
            if i < j && j < s.len() && s[j] == ',' as u8 {
                match parse_seallist_items(s, j + 1) {
                    Some((mut rest, e)) => {
                        let ghost rest0 = rest@;
                        let ghost x0v = x0@;
                        rest.insert(0, x0);
                        proof {
                            assert(rest@.map_values(|x: Seal| x@) =~= seq![x0v] + rest0.map_values(
                                |x: Seal| x@,
                            ));
                        }
                        Some((rest, e))
                    },
                    None => None,
                }
            } else if j < s.len() && s[j] == ']' as u8 {
                let ghost x0v = x0@;
                let mut v: Vec<Seal> = Vec::new();
                v.push(x0);
                proof {
                    assert(v@.map_values(|x: Seal| x@) =~= seq![x0v]);
                }
                Some((v, j + 1))
            } else {
                None
            }
        },
        None => None,
    }
}

pub fn parse_seallist(s: &[u8], i: usize) -> (r: Option<(Vec<Seal>, usize)>)
    requires
        i <= s@.len(),
    ensures
        match r {
            Some((v, j)) => i <= j && j <= s@.len() && p_seallist(s@, i as int) == Some(
                (v@.map_values(|x: Seal| x@), j as int),
            ),
            None => p_seallist(s@, i as int) is None,
        },
{
    if i < s.len() && s[i] == '[' as u8 {
        if i + 1 < s.len() && s[i + 1] == ']' as u8 {
            let v: Vec<Seal> = Vec::new();
            proof {
                assert(v@.map_values(|x: Seal| x@) =~= Seq::<SealV>::empty());
            }
            Some((v, i + 2))
        } else {
            parse_seallist_items(s, i + 1)
        }
    } else {
        None
    }
}

#[verifier::rlimit(100)]
pub fn parse_body_icp(s: &[u8], i: usize) -> (r: Option<(EventData, usize)>)
    requires
        i <= s@.len(),
    ensures
        match r {
            Some((d, j)) => i <= j && j <= s@.len() && p_body_icp(s@, i as int) == Some(
                (d@, j as int),
            ),
            None => p_body_icp(s@, i as int) is None,
        },
{
    proof {
        reveal(p_body_icp);
    }
    let l1 = lit_sith_e();
    let j1 = match expect(s, i, l1.as_slice()) {
        Some(j) => j,
        None => {
            return None;
        },
    };
    let (threshold, j2) = match parse_dec(s, j1) {
        Some(x) => x,
        None => {
            return None;
        },
    };
    let l2 = lit_keys_e();
    let j3 = match expect(s, j2, l2.as_slice()) {
        Some(j) => j,
        None => {
            return None;
        },
    };
    let (keys, j4) = match parse_blist(s, j3) {
        Some(x) => x,
        None => {
            return None;
        },
    };
    let l3 = lit_nxt_e();
    let j5 = match expect(s, j4, l3.as_slice()) {
        Some(j) => j,
        None => {
            return None;
        },
    };
    let (nxt, j6) = match parse_sap_text(s, j5) {
        Some(x) => x,
        None => {
            return None;
        },
    };
    let l4 = lit_qtoad_e();
    let j7 = match expect(s, j6, l4.as_slice()) {
        Some(j) => j,
        None => {
            return None;
        },
    };
    let (tally, j8) = match parse_dec(s, j7) {
        Some(x) => x,
        None => {
            return None;
        },
    };
    let l5 = lit_wits_e();
    let j9 = match expect(s, j8, l5.as_slice()) {
        Some(j) => j,
        None => {
            return None;
        },
    };
    let (wits, j10) = match parse_blist(s, j9) {
        Some(x) => x,
        None => {
            return None;
        },
    };
    let l6 = lit_cnfg_e();
    let j11 = match expect(s, j10, l6.as_slice()) {
        Some(j) => j,
        None => {
            return None;
        },
    };
    let (cnfg, j12) = match parse_slist(s, j11) {
        Some(x) => x,
        None => {
            return None;
        },
    };
    Some(
        (
            EventData::Icp(
                InceptionEvent {
                    key_config: KeyConfig {
                        threshold,
                        public_keys: keys,
                        threshold_key_digest: nxt,
                    },
                    witness_config: InceptionWitnessConfig { tally, initial_witnesses: wits },
                    inception_configuration: cnfg,
                },
            ),
            j12,
        ),
    )
}

#[verifier::rlimit(100)]
pub fn parse_body_rot(s: &[u8], i: usize) -> (r: Option<(EventData, usize)>)
    requires
        i <= s@.len(),
    ensures
        match r {
            Some((d, j)) => i <= j && j <= s@.len() && p_body_rot(s@, i as int) == Some(
                (d@, j as int),
            ),
            None => p_body_rot(s@, i as int) is None,
        },
{
    proof {
        reveal(p_body_rot);
    }
    let l1 = lit_prev_e();
    let j1 = match expect(s, i, l1.as_slice()) {
        Some(j) => j,
        None => {
            return None;
        },
    };
    let (prev, j2) = match parse_sap_text(s, j1) {
        Some(x) => x,
        None => {
            return None;
        },
    };
    let l2 = lit_qsith_e();
    let j3 = match expect(s, j2, l2.as_slice()) {
        Some(j) => j,
        None => {
            return None;
        },
    };
    let (threshold, j4) = match parse_dec(s, j3) {
        Some(x) => x,
        None => {
            return None;
        },
    };
    let l3 = lit_keys_e();
    let j5 = match expect(s, j4, l3.as_slice()) {
        Some(j) => j,
        None => {
            return None;
        },
    };
    let (keys, j6) = match parse_blist(s, j5) {
        Some(x) => x,
        None => {
            return None;
        },
    };
    let l4 = lit_nxt_e();
    let j7 = match expect(s, j6, l4.as_slice()) {
        Some(j) => j,
        None => {
            return None;
        },
    };
    let (nxt, j8) = match parse_sap_text(s, j7) {
        Some(x) => x,
        None => {
            return None;
        },
    };
    let l5 = lit_qtoad_e();
    let j9 = match expect(s, j8, l5.as_slice()) {
        Some(j) => j,
        None => {
            return None;
        },
    };
    let (tally, j10) = match parse_dec(s, j9) {
        Some(x) => x,
        None => {
            return None;
        },
    };
    let l6 = lit_cuts_e();
    let j11 = match expect(s, j10, l6.as_slice()) {
        Some(j) => j,
        None => {
            return None;
        },
    };
    let (prune, j12) = match parse_blist(s, j11) {
        Some(x) => x,
        None => {
            return None;
        },
    };
    let l7 = lit_adds_e();
    let j13 = match expect(s, j12, l7.as_slice()) {
        Some(j) => j,
        None => {
            return None;
        },
    };
    let (graft, j14) = match parse_blist(s, j13) {
        Some(x) => x,
        None => {
            return None;
        },
    };
    let l8 = lit_data_e();
    let j15 = match expect(s, j14, l8.as_slice()) {
        Some(j) => j,
        None => {
            return None;
        },
    };
    let (data, j16) = match parse_seallist(s, j15) {
        Some(x) => x,
        None => {
            return None;
        },
    };
    Some(
        (
            EventData::Rot(
                RotationEvent {
                    previous_event_hash: prev,
                    key_config: KeyConfig {
                        threshold,
                        public_keys: keys,
                        threshold_key_digest: nxt,
                    },
                    witness_config: WitnessConfig { tally, prune, graft },
                    data,
                },
            ),
            j16,
        ),
    )
}

pub fn parse_body_ixn(s: &[u8], i: usize) -> (r: Option<(EventData, usize)>)
    requires
        i <= s@.len(),
    ensures
        match r {
            Some((d, j)) => i <= j && j <= s@.len() && p_body_ixn(s@, i as int) == Some(
                (d@, j as int),
            ),
            None => p_body_ixn(s@, i as int) is None,
        },
{
    proof {
        reveal(p_body_ixn);
    }
    let l1 = lit_prev_e();
    let j1 = match expect(s, i, l1.as_slice()) {
        Some(j) => j,
        None => {
            return None;
        },
    };
    let (prev, j2) = match parse_sap_text(s, j1) {
        Some(x) => x,
        None => {
            return None;
        },
    };
    let l2 = lit_qdata_e();
    let j3 = match expect(s, j2, l2.as_slice()) {
        Some(j) => j,
        None => {
            return None;
        },
    };
    let (data, j4) = match parse_seallist(s, j3) {
        Some(x) => x,
        None => {
            return None;
        },
    };
    Some((EventData::Ixn(InteractionEvent { previous_event_hash: prev, data }), j4))
}

pub fn parse_body_vrc(s: &[u8], i: usize) -> (r: Option<(EventData, usize)>)
    requires
        i <= s@.len(),
    ensures
        match r {
            Some((d, j)) => i <= j && j <= s@.len() && p_body_vrc(s@, i as int) == Some(
                (d@, j as int),
            ),
            None => p_body_vrc(s@, i as int) is None,
        },
{
    proof {
        reveal(p_body_vrc);
    }
    let l1 = lit_dig_e();
    let j1 = match expect(s, i, l1.as_slice()) {
        Some(j) => j,
        None => {
            return None;
        },
    };
    let (dig, j2) = match parse_sap_text(s, j1) {
        Some(x) => x,
        None => {
            return None;
        },
    };
    let l2 = lit_qseal_e();
    let j3 = match expect(s, j2, l2.as_slice()) {
        Some(j) => j,
        None => {
            return None;
        },
    };
    let (p, j4) = match parse_id_text(s, j3) {
        Some(x) => x,
        None => {
            return None;
        },
    };
    let l3 = lit_qdig_e();
    let j5 = match expect(s, j4, l3.as_slice()) {
        Some(j) => j,
        None => {
            return None;
        },
    };
    let (d, j6) = match parse_sap_text(s, j5) {
        Some(x) => x,
        None => {
            return None;
        },
    };
    let l4 = lit_qrb_e();
    let j7 = match expect(s, j6, l4.as_slice()) {
        Some(j) => j,
        None => {
            return None;
        },
    };
    Some(
        (
            EventData::Vrc(
                ReceiptTransferable {
                    receipted_event_digest: dig,
                    validator_location_seal: EventSeal { prefix: p, event_digest: d },
                },
            ),
            j7,
        ),
    )
}

#[verifier::rlimit(100)]
pub fn parse_event(s: &[u8], i: usize) -> (r: Option<(Event, usize)>)
    requires
        i <= s@.len(),
    ensures
        match r {
            Some((e, j)) => i <= j && j <= s@.len() && p_event(s@, i as int) == Some(
                (e@, j as int),
            ),
            None => p_event(s@, i as int) is None,
        },
{
    let lh = lit_head_e();
    let j1 = match expect(s, i, lh.as_slice()) {
        Some(j) => j,
        None => {
            return None;
        },
    };
    let (pref, j2) = match parse_id_text(s, j1) {
        Some(x) => x,
        None => {
            return None;
        },
    };
    let ls = lit_sn_e();
    let j3 = match expect(s, j2, ls.as_slice()) {
        Some(j) => j,
        None => {
            return None;
        },
    };
    let (sn, j4) = match parse_dec(s, j3) {
        Some(x) => x,
        None => {
            return None;
        },
    };
    let licp = lit_ilk_icp_e();
    let body = match expect(s, j4, licp.as_slice()) {
        Some(j5) => parse_body_icp(s, j5),
        None => {
            let lrot = lit_ilk_rot_e();
            match expect(s, j4, lrot.as_slice()) {
                Some(j5) => parse_body_rot(s, j5),
                None => {
                    let lixn = lit_ilk_ixn_e();
                    match expect(s, j4, lixn.as_slice()) {
                        Some(j5) => parse_body_ixn(s, j5),
                        None => {
                            let lvrc = lit_ilk_vrc_e();
                            match expect(s, j4, lvrc.as_slice()) {
                                Some(j5) => parse_body_vrc(s, j5),
                                None => None,
                            }
                        },
                    }
                },
            }
        },
    };
    match body {
        Some((d, j6)) => if j6 < s.len() && s[j6] == '}' as u8 {
            Some((Event { prefix: pref, sn, event_data: d }, j6 + 1))
        } else {
            None
        },
        None => None,
    }
}

pub fn parse_sigs(s: &[u8], i: usize, n: u8) -> (r: Option<(Vec<AttachedSignaturePrefix>, usize)>)
    requires
        i <= s@.len(),
    ensures
        match r {
            Some((v, j)) => i <= j && j <= s@.len() && p_sigs(s@, i as int, n as int) == Some(
                (v@.map_values(|a: AttachedSignaturePrefix| a@), j as int),
            ),
            None => p_sigs(s@, i as int, n as int) is None,
        },
    decreases n,
{
    if n == 0 {
        let v: Vec<AttachedSignaturePrefix> = Vec::new();
        proof {
            assert(v@.map_values(|a: AttachedSignaturePrefix| a@) =~= Seq::<AttSigV>::empty());
        }
        Some((v, i))
    } else {
        match parse_attsig(s, i) {
            Some((a0, j)) => {
                match parse_sigs(s, j, n - 1) {
                    Some((mut rest, e)) => {
                        let ghost rest0 = rest@;
                        let ghost a0v = a0@;
                        rest.insert(0, a0);
                        proof {
                            assert(rest@.map_values(|a: AttachedSignaturePrefix| a@) =~= seq![a0v]
                                + rest0.map_values(|a: AttachedSignaturePrefix| a@));
                        }
                        Some((rest, e))
                    },
                    None => None,
                }
            },
            None => None,
        }
    }
}

pub fn parse_signed(s: &[u8], i: usize) -> (r: Option<(SignedEventMessage, usize)>)
    requires
        i <= s@.len(),
    ensures
        match r {
            Some((m, j)) => i <= j && j <= s@.len() && p_signed(s@, i as int) == Some(
                (m@, j as int),
            ),
            None => p_signed(s@, i as int) is None,
        },
{
    match parse_event(s, i) {
        Some((e, j)) => {
            if s.len() - j >= 2 && s[j] == '-' as u8 {
                match b64_inv_e(s[j + 1]) {
                    Some(n) => {
                        match parse_sigs(s, j + 2, n) {
                            Some((sigs, e2)) => Some(
                                (
                                    SignedEventMessage {
                                        event_message: EventMessage {
                                            event: e,
                                            format: SerializationFormats::Json,
                                        },
                                        signatures: sigs,
                                    },
                                    e2,
                                ),
                            ),
                            None => None,
                        }
                    },
                    None => None,
                }
            } else {
                None
            }
        },
        None => None,
    }
}

pub fn parse_stream(s: &[u8], i: usize) -> (r: Option<(Vec<SignedEventMessage>, usize)>)
    requires
        i <= s@.len(),
    ensures
        match r {
            Some((v, j)) => i <= j && j <= s@.len() && p_stream(s@, i as int) == Some(
                (v@.map_values(|m: SignedEventMessage| m@), j as int),
            ),
            None => p_stream(s@, i as int) is None,
        },
    decreases s@.len() - i,
{
    if i == s.len() {
        let v: Vec<SignedEventMessage> = Vec::new();
        proof {
            assert(v@.map_values(|m: SignedEventMessage| m@) =~= Seq::<SignedEventV>::empty());
        }
        Some((v, i))
    } else {
        match parse_signed(s, i) {
            Some((v0, j)) => {
                if i < j {
                    match parse_stream(s, j) {
                        Some((mut rest, e)) => {
                            let ghost rest0 = rest@;
                            let ghost v0v = v0@;
                            rest.insert(0, v0);
                            proof {
                                assert(rest@.map_values(|m: SignedEventMessage| m@) =~= seq![v0v]
                                    + rest0.map_values(|m: SignedEventMessage| m@));
                            }
                            Some((rest, e))
                        },
                        None => None,
                    }
                } else {
                    None
                }
            },
            None => None,
        }
    }
}

/// Decodes one signed event that must cover the whole input.
pub fn signed_message(s: &[u8]) -> (r: Result<SignedEventMessage, Error>)
    ensures
        match r {
            Ok(m) => p_signed(s@, 0) == Some((m@, s@.len() as int)),
            Err(e) => e == Error::DeserializationError && (match p_signed(s@, 0) {
                Some(x) => x.1 != s@.len(),
                None => true,
            }),
        },
{
    match parse_signed(s, 0) {
        Some((m, j)) => if j == s.len() {
            Ok(m)
        } else {
            Err(Error::DeserializationError)
        },
        None => Err(Error::DeserializationError),
    }
}

/// Decodes a concatenation of signed events covering the whole input.
pub fn signed_event_stream(s: &[u8]) -> (r: Result<Vec<SignedEventMessage>, Error>)
    ensures
        match r {
            Ok(v) => p_stream(s@, 0) == Some(
                (v@.map_values(|m: SignedEventMessage| m@), s@.len() as int),
            ),
            Err(e) => e == Error::DeserializationError && p_stream(s@, 0) is None,
        },
{
    match parse_stream(s, 0) {
        Some((v, j)) => {
            proof {
                lemma_p_stream_end(s@, 0);
            }
            Ok(v)
        },
        None => Err(Error::DeserializationError),
    }
}

/// A successful stream parse always ends exactly at the end of the input.
pub proof fn lemma_p_stream_end(s: Seq<u8>, i: int)
    requires
        0 <= i <= s.len(),
        p_stream(s, i) is Some,
    ensures
        p_stream(s, i)->Some_0.1 == s.len(),
    decreases s.len() - i,
{
    if i == s.len() {
    } else {
        match p_signed(s, i) {
            Some((v, j)) => {
                if i < j && j <= s.len() {
                    lemma_p_stream_end(s, j);
                }
            },
            None => {},
        }
    }
}

} // verus!

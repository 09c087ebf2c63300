use vstd::prelude::*;

use crate::crypto::{
    blake3_digest, blake3_of, ed25519_keypair, ed25519_sign, ed25519_sig_of, ed25519_sk_wf,
    ed25519_verify_ok, keypair_matched,
};
use crate::dup::{copy_signed};
use crate::errors::{Error, SemanticKind};
use crate::event::{
    wf_signed, DigestSeal, Event, EventData, EventMessage, EventSeal, InceptionEvent,
    InceptionWitnessConfig, InteractionEvent, KeyConfig, ReceiptTransferable, RotationEvent, Seal,
    SealV, SerializationFormats, SignedEventMessage, SignedEventV, WitnessConfig,
};
use crate::prefix::{
    basic_text, AttachedSignaturePrefix, BasicPrefix, IdPrefV, IdentifierPrefix,
    SelfAddressingPrefix,
};
use crate::ser::{ser_body, ser_event};
use crate::state::{
    copy_bytes, copy_id, is_zero, transition, IdStateV, IdentifierState,
};

verus! {

// The agent's own key event log: its events, the receipts of validators, the
// escrow for receipts that arrived ahead of our view of their issuer, the
// replay state, and the current and pre-rotated keypairs.

pub struct LogState {
    pub log: Vec<SignedEventMessage>,
    /// Validator receipts; each entry's own `sn` names the receipted event.
    pub receipts: Vec<SignedEventMessage>,
    /// Receipts whose validator seal names a tip we have not yet observed.
    pub escrow_sigs: Vec<SignedEventMessage>,
    pub state: IdentifierState,
    /// The authoritative keypair: (public, secret) raw bytes.
    pub keypair: (Vec<u8>, Vec<u8>),
    /// The pre-rotated keypair: the only one that may sign the next rotation.
    pub next_keypair: (Vec<u8>, Vec<u8>),
}

#[verifier::ext_equal]
pub ghost struct LogV {
    pub log: Seq<SignedEventV>,
    pub receipts: Seq<SignedEventV>,
    pub escrow: Seq<SignedEventV>,
    pub state: IdStateV,
    pub keypair: (Seq<u8>, Seq<u8>),
    pub next_keypair: (Seq<u8>, Seq<u8>),
}

impl View for LogState {
    type V = LogV;

    open spec fn view(&self) -> LogV {
        LogV {
            log: self.log@.map_values(|m: SignedEventMessage| m@),
            receipts: self.receipts@.map_values(|m: SignedEventMessage| m@),
            escrow: self.escrow_sigs@.map_values(|m: SignedEventMessage| m@),
            state: self.state@,
            keypair: (self.keypair.0@, self.keypair.1@),
            next_keypair: (self.next_keypair.0@, self.next_keypair.1@),
        }
    }
}

/// The previous-event hash carried by a rotation or interaction.
pub open spec fn prev_hash_of(d: crate::event::EventDataV) -> Seq<u8> {
    match d {
        crate::event::EventDataV::Rot(e) => e.previous_event_hash,
        crate::event::EventDataV::Ixn(e) => e.previous_event_hash,
        _ => Seq::empty(),
    }
}

/// Event `i` of the log names the digest of event `i - 1`: the hash chain.
pub open spec fn chained(l: LogV, i: int) -> bool {
    &&& (l.log[i].event.event_data is Rot || l.log[i].event.event_data is Ixn)
    &&& prev_hash_of(l.log[i].event.event_data) == blake3_of(ser_event(l.log[i - 1].event))
}

/// A filed receipt is a `Vrc` for one of our own logged events, and its
/// receipted-event digest is the digest of that event's canonical bytes.
pub open spec fn receipt_ok(l: LogV, r: SignedEventV) -> bool {
    &&& r.event.event_data is Vrc
    &&& r.event.sn < l.log.len()
    &&& r.event.prefix == l.state.prefix
    &&& r.event.event_data->Vrc_0.receipted_event_digest == blake3_of(
        ser_event(l.log[r.event.sn as int].event),
    )
}

/// The log invariant: what holds of a `LogState` after inception and is kept
/// by every operation.
pub open spec fn wf_log(l: LogV) -> bool {
    &&& 1 <= l.log.len()
    &&& l.log.len() == l.state.sn + 1
    &&& forall|i: int| 0 <= i < l.log.len() ==> (#[trigger] l.log[i]).event.sn == i
    &&& forall|i: int|
        0 <= i < l.log.len() ==> (#[trigger] l.log[i]).event.prefix == l.state.prefix
    &&& forall|i: int| 0 <= i < l.log.len() ==> wf_signed(#[trigger] l.log[i])
    &&& l.log[0].event.event_data is Icp
    &&& l.state.prefix == IdPrefV::SelfAddressing(blake3_of(ser_body(l.log[0].event.event_data)))
    &&& l.state.last == ser_event(l.log[l.log.len() - 1].event)
    &&& forall|i: int| #![trigger l.log[i]] 1 <= i < l.log.len() ==> chained(l, i)
    &&& !is_zero(l.state)
    &&& l.state.current_keys.public_keys.len() >= 1
    &&& l.state.current_keys.public_keys[0] == l.keypair.0
    &&& l.state.next_keys_digest == blake3_of(basic_text(l.next_keypair.0))
    &&& l.keypair.0.len() == 32 && l.keypair.1.len() == 64
    &&& keypair_matched(l.keypair.0, l.keypair.1)
    &&& ed25519_sk_wf(l.keypair.1)
    &&& l.next_keypair.0.len() == 32 && l.next_keypair.1.len() == 64
    &&& keypair_matched(l.next_keypair.0, l.next_keypair.1)
    &&& ed25519_sk_wf(l.next_keypair.1)
    &&& forall|i: int| 0 <= i < l.receipts.len() ==> receipt_ok(l, #[trigger] l.receipts[i])
}

/// What receipt ingestion returns and what the log becomes, for every log,
/// validator state and message.
pub open spec fn ingest(l: LogV, val: IdStateV, m: SignedEventV) -> (Result<(), Error>, LogV) {
    match m.event.event_data {
        crate::event::EventDataV::Vrc(v) => {
            if m.event.sn >= l.log.len() {
                (Err(Error::SemanticError(SemanticKind::IncorrectReceiptSn)), l)
            } else if !(m.event.prefix == l.state.prefix && v.receipted_event_digest == blake3_of(
                ser_event(l.log[m.event.sn as int].event),
            ) && v.validator_location_seal.prefix == val.prefix) {
                (Err(Error::SemanticError(SemanticKind::IncorrectReceiptBinding)), l)
            } else if v.validator_location_seal.event_digest != blake3_of(val.last) {
                (Ok(()), LogV { escrow: l.escrow.push(m), ..l })
            } else if !(m.signatures.len() == 1 && m.signatures[0].index == 0) {
                (Err(Error::SemanticError(SemanticKind::WrongSignatureCount)), l)
            } else if val.current_keys.public_keys.len() < 1 {
                (Err(Error::SemanticError(SemanticKind::MissingKeys)), l)
            } else if !ed25519_verify_ok(
                val.current_keys.public_keys[0],
                ser_event(l.log[m.event.sn as int].event),
                m.signatures[0].sig,
            ) {
                (Err(Error::CryptoError), l)
            } else {
                (Ok(()), LogV { receipts: l.receipts.push(m), ..l })
            }
        },
        _ => (Err(Error::SemanticError(SemanticKind::NotAReceipt)), l),
    }
}

/// The invariant does not mention the escrow, so it survives any change
/// that keeps the log, state, receipts and keypairs.
pub proof fn lemma_wf_log_frame(a: LogV, b: LogV)
    requires
        wf_log(a),
        b.log == a.log,
        b.state == a.state,
        b.receipts == a.receipts,
        b.keypair == a.keypair,
        b.next_keypair == a.next_keypair,
    ensures
        wf_log(b),
{
    assert forall|i: int| 0 <= i < b.log.len() implies (#[trigger] b.log[i]).event.sn == i by {
        assert(a.log[i].event.sn == i);
    }
    assert forall|i: int|
        0 <= i < b.log.len() implies (#[trigger] b.log[i]).event.prefix == b.state.prefix by {
        assert(a.log[i].event.prefix == a.state.prefix);
    }
    assert forall|i: int| 0 <= i < b.log.len() implies wf_signed(#[trigger] b.log[i]) by {
        assert(wf_signed(a.log[i]));
    }
    assert forall|i: int| 1 <= i < b.log.len() implies chained(b, i) by {
        assert(chained(a, i));
    }
    assert forall|i: int| 0 <= i < b.receipts.len() implies receipt_ok(
        b,
        #[trigger] b.receipts[i],
    ) by {
        assert(receipt_ok(a, a.receipts[i]));
    }
}

/// Filing one receipt that satisfies the receipt invariant keeps the whole
/// invariant.
pub proof fn lemma_wf_log_push_receipt(a: LogV, b: LogV, m: SignedEventV)
    requires
        wf_log(a),
        receipt_ok(a, m),
        b.log == a.log,
        b.state == a.state,
        b.receipts == a.receipts.push(m),
        b.keypair == a.keypair,
        b.next_keypair == a.next_keypair,
    ensures
        wf_log(b),
{
    assert forall|i: int| 0 <= i < b.log.len() implies (#[trigger] b.log[i]).event.sn == i by {
        assert(a.log[i].event.sn == i);
    }
    assert forall|i: int|
        0 <= i < b.log.len() implies (#[trigger] b.log[i]).event.prefix == b.state.prefix by {
        assert(a.log[i].event.prefix == a.state.prefix);
    }
    assert forall|i: int| 0 <= i < b.log.len() implies wf_signed(#[trigger] b.log[i]) by {
        assert(wf_signed(a.log[i]));
    }
    assert forall|i: int| 1 <= i < b.log.len() implies chained(b, i) by {
        assert(chained(a, i));
    }
    assert forall|i: int| 0 <= i < b.receipts.len() implies receipt_ok(
        b,
        #[trigger] b.receipts[i],
    ) by {
        if i < a.receipts.len() {
            assert(receipt_ok(a, a.receipts[i]));
        } else {
            assert(b.receipts[i] == m);
        }
    }
}

impl LogState {
    /// Incepts a fresh identity: two fresh keypairs, one inception event
    /// with threshold one and the single current key, self-signed at index 0,
    /// cross-checked through the transition function and appended as the
    /// log's first event. Inception always succeeds: key generation is total
    /// and a fresh secret key always signs.
    #[verifier::rlimit(100)]
    pub fn new() -> (r: Result<LogState, Error>)
        ensures
            r is Ok,
            match r {
                Ok(ls) => {
                    &&& wf_log(ls@)
                    &&& ls@.log.len() == 1
                    &&& ls@.state.sn == 0
                    &&& ls@.log[0].event.sn == 0
                    &&& ls@.log[0].event.event_data is Icp
                    &&& ls@.state.prefix == IdPrefV::SelfAddressing(
                        blake3_of(ser_body(ls@.log[0].event.event_data)),
                    )
                    &&& ls@.log[0].event.event_data->Icp_0.key_config.threshold == 1
                    &&& ls@.log[0].event.event_data->Icp_0.key_config.public_keys == seq![
                        ls@.keypair.0,
                    ]
                    &&& ls@.state.current_keys == ls@.log[0].event.event_data->Icp_0.key_config
                    &&& ls@.log[0].signatures == seq![
                        crate::prefix::AttSigV {
                            index: 0u8,
                            sig: ed25519_sig_of(ls@.keypair.1, ser_event(ls@.log[0].event)),
                        },
                    ]
                    &&& forall|z: IdStateV|
                        is_zero(z) ==> crate::state::transition(z, ls@.log[0]) == Ok::<
                            IdStateV,
                            Error,
                        >(ls@.state)
                    &&& ls@.receipts.len() == 0
                    &&& ls@.escrow.len() == 0
                },
                Err(_) => false,
            },
    {
        let kp = ed25519_keypair();
        let next_kp = ed25519_keypair();
        let current_bp = BasicPrefix { raw: copy_bytes(&kp.0) };
        let next_bp = BasicPrefix { raw: copy_bytes(&next_kp.0) };
        let next_text = next_bp.to_str();
        let icp_data = InceptionEvent {
            key_config: KeyConfig {
                threshold: 1,
                public_keys: {
                    let mut ks: Vec<BasicPrefix> = Vec::new();
                    ks.push(current_bp);
                    ks
                },
                threshold_key_digest: SelfAddressingPrefix::derive(next_text.as_slice()),
            },
            witness_config: InceptionWitnessConfig { tally: 0, initial_witnesses: Vec::new() },
            inception_configuration: Vec::new(),
        };
        let ev_data = EventData::Icp(icp_data);
        let body = crate::ser::serialize_data(&ev_data);
        let dig = blake3_digest(body.as_slice());
        let pref = IdentifierPrefix::SelfAddressing(SelfAddressingPrefix { raw: dig });
        let icp_m = Event { prefix: pref, sn: 0, event_data: ev_data }.to_message(
            SerializationFormats::Json,
        );
        let ser = icp_m.serialize();
        let sig = match ed25519_sign(ser.as_slice(), kp.1.as_slice()) {
            Ok(sg) => sg,
            Err(_) => {
                proof {
                    assert(false);
                }
                return Err(Error::CryptoError);
            },
        };
        let mut sig_vec: Vec<AttachedSignaturePrefix> = Vec::new();
        sig_vec.push(AttachedSignaturePrefix::new(sig, 0));
        let sigged = icp_m.sign(sig_vec);
        let zero = IdentifierState::default();
        proof {
            assert(sigged@.signatures =~= seq![
                crate::prefix::AttSigV {
                    index: 0u8,
                    sig: ed25519_sig_of(kp.1@, ser_event(sigged@.event)),
                },
            ]);
            assert(sigged@.event.event_data->Icp_0.key_config.public_keys =~= seq![kp.0@]);
        }
        let s0 = match zero.verify_and_apply(&sigged) {
            Ok(s0) => s0,
            Err(_) => {
                proof {
                    assert(false);
                }
                return Err(Error::CryptoError);
            },
        };
        let mut logv: Vec<SignedEventMessage> = Vec::new();
        logv.push(sigged);
        let ls = LogState {
            log: logv,
            receipts: Vec::new(),
            escrow_sigs: Vec::new(),
            state: s0,
            keypair: kp,
            next_keypair: next_kp,
        };
        proof {
            assert(ls@.log =~= seq![ls.log@[0]@]);
            assert(ls@.receipts =~= Seq::<SignedEventV>::empty());
            assert(ls@.escrow =~= Seq::<SignedEventV>::empty());
            assert(wf_log(ls@));
            assert(crate::state::transition(zero@, ls@.log[0]) == Ok::<IdStateV, Error>(
                ls@.state,
            ));
            assert forall|z: IdStateV|
                is_zero(z) implies crate::state::transition(z, ls@.log[0]) == Ok::<
                IdStateV,
                Error,
            >(ls@.state) by {
                assert(is_zero(zero@));
            }
        }
        Ok(ls)
    }

    /// Issues a transferable receipt for `event`: a `Vrc` with the event's
    /// own prefix and sequence number, the digest of its canonical bytes, a
    /// seal naming our identity and current tip, and our signature over the
    /// receipted event's bytes themselves, so the receipt can travel with
    /// them.
    pub fn make_rct(&self, event: &EventMessage) -> (r: Result<SignedEventMessage, Error>)
        ensures
            match r {
                Ok(rct) => {
                    &&& rct@.event.prefix == event@.prefix
                    &&& rct@.event.sn == event@.sn
                    &&& rct@.event.event_data matches crate::event::EventDataV::Vrc(v) && (
                    v.receipted_event_digest == blake3_of(ser_event(event@))
                        && v.validator_location_seal.prefix == self@.state.prefix
                        && v.validator_location_seal.event_digest == blake3_of(self@.state.last))
                    &&& rct@.signatures == seq![
                        crate::prefix::AttSigV {
                            index: 0u8,
                            sig: ed25519_sig_of(self@.keypair.1, ser_event(event@)),
                        },
                    ]
                },
                Err(e) => e == Error::CryptoError,
            },
            ed25519_sk_wf(self@.keypair.1) ==> r is Ok,
    {
        let ser = event.serialize();
        let sig = match ed25519_sign(ser.as_slice(), self.keypair.1.as_slice()) {
            Ok(sg) => sg,
            Err(_) => {
                return Err(Error::CryptoError);
            },
        };
        let rct_event = Event {
            prefix: copy_id(&event.event.prefix),
            sn: event.event.sn,
            event_data: EventData::Vrc(
                ReceiptTransferable {
                    receipted_event_digest: SelfAddressingPrefix { raw: blake3_digest(
                        ser.as_slice(),
                    ) },
                    validator_location_seal: EventSeal {
                        prefix: copy_id(&self.state.prefix),
                        event_digest: SelfAddressingPrefix { raw: blake3_digest(
                            self.state.last.as_slice(),
                        ) },
                    },
                },
            ),
        };
        let mut sig_vec: Vec<AttachedSignaturePrefix> = Vec::new();
        sig_vec.push(AttachedSignaturePrefix::new(sig, 0));
        let rct = rct_event.to_message(SerializationFormats::Json).sign(sig_vec);
        proof {
            assert(rct@.signatures =~= seq![
                crate::prefix::AttSigV {
                    index: 0u8,
                    sig: ed25519_sig_of(self@.keypair.1, ser_event(event@)),
                },
            ]);
        }
        Ok(rct)
    }

    /// Builds, signs and applies an interaction event anchoring the digest of
    /// `payload`, signed once at index 0 by the current key; keys are
    /// unchanged and the log grows by one. On a well-formed log an
    /// interaction always succeeds.
    #[verifier::rlimit(100)]
    pub fn make_ixn(&mut self, payload: &[u8]) -> (r: Result<SignedEventMessage, Error>)
        requires
            wf_log(old(self)@),
            old(self)@.state.sn < u64::MAX,
        ensures
            r is Ok,
            match r {
                Ok(ev) => {
                    &&& wf_log(final(self)@)
                    &&& final(self)@.log == old(self)@.log.push(ev@)
                    &&& final(self)@.log.len() == final(self)@.state.sn + 1
                    &&& final(self)@.state.sn == old(self)@.state.sn + 1
                    &&& ev@.event.sn == old(self)@.state.sn + 1
                    &&& ev@.event.prefix == old(self)@.state.prefix
                    &&& ev@.event.event_data matches crate::event::EventDataV::Ixn(ix) && (
                    ix.previous_event_hash == blake3_of(old(self)@.state.last) && ix.data == seq![
                        SealV::Digest(blake3_of(payload@)),
                    ])
                    &&& ev@.signatures == seq![
                        crate::prefix::AttSigV {
                            index: 0u8,
                            sig: ed25519_sig_of(old(self)@.keypair.1, ser_event(ev@.event)),
                        },
                    ]
                    &&& final(self)@.state.current_keys == old(self)@.state.current_keys
                    &&& final(self)@.state.next_keys_digest == old(self)@.state.next_keys_digest
                    &&& final(self)@.keypair == old(self)@.keypair
                    &&& final(self)@.next_keypair == old(self)@.next_keypair
                    &&& final(self)@.receipts == old(self)@.receipts
                    &&& final(self)@.escrow == old(self)@.escrow
                },
                Err(_) => false,
            },
    {
        let dig_seal = DigestSeal { dig: SelfAddressingPrefix::derive(payload) };
        let prev = SelfAddressingPrefix { raw: blake3_digest(self.state.last.as_slice()) };
        let mut seals: Vec<Seal> = Vec::new();
        seals.push(Seal::Digest(dig_seal));
        let ev = Event {
            prefix: copy_id(&self.state.prefix),
            sn: self.state.sn + 1,
            event_data: EventData::Ixn(
                InteractionEvent { previous_event_hash: prev, data: seals },
            ),
        }.to_message(SerializationFormats::Json);
        let ser = ev.serialize();
        let sig = match ed25519_sign(ser.as_slice(), self.keypair.1.as_slice()) {
            Ok(sg) => sg,
            Err(_) => {
                proof {
                    assert(false);
                }
                return Err(Error::CryptoError);
            },
        };
        let mut sig_vec: Vec<AttachedSignaturePrefix> = Vec::new();
        sig_vec.push(AttachedSignaturePrefix::new(sig, 0));
        let ixn = ev.sign(sig_vec);
        proof {
            assert(ixn@.signatures =~= seq![
                crate::prefix::AttSigV {
                    index: 0u8,
                    sig: ed25519_sig_of(self@.keypair.1, ser_event(ixn@.event)),
                },
            ]);
            assert(ixn@.event.event_data->Ixn_0.data =~= seq![
                SealV::Digest(blake3_of(payload@)),
            ]);
        }
        let ns = match self.state.verify_and_apply(&ixn) {
            Ok(ns) => ns,
            Err(_) => {
                proof {
                    assert(false);
                }
                return Err(Error::CryptoError);
            },
        };
        let ghost old_view = self@;
        self.state = ns;
        let ret = copy_signed(&ixn);
        self.log.push(ixn);
        proof {
            assert(self@.log =~= old_view.log.push(ret@));
            assert(self@.receipts =~= old_view.receipts);
            assert(self@.escrow =~= old_view.escrow);
            assert forall|i: int| 0 <= i < self@.receipts.len() implies receipt_ok(
                self@,
                #[trigger] self@.receipts[i],
            ) by {
                assert(receipt_ok(old_view, old_view.receipts[i]));
                assert(self@.log[self@.receipts[i].event.sn as int] == old_view.log[
                    old_view.receipts[i].event.sn as int
                ]);
            }
            assert forall|i: int| 1 <= i < self@.log.len() implies chained(self@, i) by {
                if i < old_view.log.len() {
                    assert(chained(old_view, i));
                    assert(self@.log[i] == old_view.log[i]);
                    assert(self@.log[i - 1] == old_view.log[i - 1]);
                }
            }
            assert(wf_log(self@));
        }
        Ok(ret)
    }

    /// Rotates: the pre-rotated keypair becomes authoritative and signs the
    /// rotation naming it, a fresh keypair is committed as next, and the
    /// rotation is applied and appended. The signer is exactly the keypair
    /// whose public-key-derivation digest was committed by the previous
    /// establishment event: the pre-rotation property. On a well-formed log a
    /// rotation always succeeds.
    #[verifier::rlimit(100)]
    pub fn rotate(&mut self) -> (r: Result<SignedEventMessage, Error>)
        requires
            wf_log(old(self)@),
            old(self)@.state.sn < u64::MAX,
        ensures
            r is Ok,
            match r {
                Ok(ev) => {
                    &&& wf_log(final(self)@)
                    &&& final(self)@.log == old(self)@.log.push(ev@)
                    &&& final(self)@.log.len() == final(self)@.state.sn + 1
                    &&& final(self)@.state.sn == old(self)@.state.sn + 1
                    &&& ev@.event.sn == old(self)@.state.sn + 1
                    &&& ev@.event.prefix == old(self)@.state.prefix
                    &&& ev@.event.event_data matches crate::event::EventDataV::Rot(re) && (
                    re.previous_event_hash == blake3_of(old(self)@.state.last)
                        && re.key_config.public_keys == seq![old(self)@.next_keypair.0]
                        && blake3_of(basic_text(re.key_config.public_keys[0])) == old(
                        self,
                    )@.state.next_keys_digest)
                    &&& ev@.signatures == seq![
                        crate::prefix::AttSigV {
                            index: 0u8,
                            sig: ed25519_sig_of(
                                old(self)@.next_keypair.1,
                                ser_event(ev@.event),
                            ),
                        },
                    ]
                    &&& final(self)@.keypair == old(self)@.next_keypair
                    &&& final(self)@.state.next_keys_digest == blake3_of(
                        basic_text(final(self)@.next_keypair.0),
                    )
                    &&& final(self)@.receipts == old(self)@.receipts
                    &&& final(self)@.escrow == old(self)@.escrow
                },
                Err(_) => false,
            },
    {
        let new_next = ed25519_keypair();
        let promoted = (copy_bytes(&self.next_keypair.0), copy_bytes(&self.next_keypair.1));
        let promoted_bp = BasicPrefix { raw: copy_bytes(&promoted.0) };
        let new_next_bp = BasicPrefix { raw: copy_bytes(&new_next.0) };
        let new_next_text = new_next_bp.to_str();
        let prev = SelfAddressingPrefix { raw: blake3_digest(self.state.last.as_slice()) };
        let ev = Event {
            prefix: copy_id(&self.state.prefix),
            sn: self.state.sn + 1,
            event_data: EventData::Rot(
                RotationEvent {
                    previous_event_hash: prev,
                    key_config: KeyConfig {
                        threshold: 1,
                        public_keys: {
                            let mut ks: Vec<BasicPrefix> = Vec::new();
                            ks.push(promoted_bp);
                            ks
                        },
                        threshold_key_digest: SelfAddressingPrefix::derive(
                            new_next_text.as_slice(),
                        ),
                    },
                    witness_config: WitnessConfig {
                        tally: 0,
                        prune: Vec::new(),
                        graft: Vec::new(),
                    },
                    data: Vec::new(),
                },
            ),
        }.to_message(SerializationFormats::Json);
        let ser = ev.serialize();
        let sig = match ed25519_sign(ser.as_slice(), promoted.1.as_slice()) {
            Ok(sg) => sg,
            Err(_) => {
                proof {
                    assert(false);
                }
                return Err(Error::CryptoError);
            },
        };
        let mut sig_vec: Vec<AttachedSignaturePrefix> = Vec::new();
        sig_vec.push(AttachedSignaturePrefix::new(sig, 0));
        let rot = ev.sign(sig_vec);
        proof {
            assert(rot@.signatures =~= seq![
                crate::prefix::AttSigV {
                    index: 0u8,
                    sig: ed25519_sig_of(old(self)@.next_keypair.1, ser_event(rot@.event)),
                },
            ]);
            assert(rot@.event.event_data->Rot_0.key_config.public_keys =~= seq![
                old(self)@.next_keypair.0,
            ]);
            assert(rot@.event.event_data->Rot_0.witness_config.prune =~= Seq::<Seq<u8>>::empty());
            assert(rot@.event.event_data->Rot_0.witness_config.graft =~= Seq::<Seq<u8>>::empty());
            assert(rot@.event.event_data->Rot_0.data =~= Seq::<SealV>::empty());
        }
        let ns = match self.state.verify_and_apply(&rot) {
            Ok(ns) => ns,
            Err(_) => {
                proof {
                    assert(false);
                }
                return Err(Error::CryptoError);
            },
        };
        let ghost old_view = self@;
        self.state = ns;
        let ret = copy_signed(&rot);
        self.log.push(rot);
        self.keypair = promoted;
        self.next_keypair = new_next;
        proof {
            assert(self@.log =~= old_view.log.push(ret@));
            assert(self@.receipts =~= old_view.receipts);
            assert(self@.escrow =~= old_view.escrow);
            assert forall|i: int| 0 <= i < self@.receipts.len() implies receipt_ok(
                self@,
                #[trigger] self@.receipts[i],
            ) by {
                assert(receipt_ok(old_view, old_view.receipts[i]));
                assert(self@.log[self@.receipts[i].event.sn as int] == old_view.log[
                    old_view.receipts[i].event.sn as int
                ]);
            }
            assert forall|i: int| 1 <= i < self@.log.len() implies chained(self@, i) by {
                if i < old_view.log.len() {
                    assert(chained(old_view, i));
                    assert(self@.log[i] == old_view.log[i]);
                    assert(self@.log[i - 1] == old_view.log[i - 1]);
                }
            }
            assert(wf_log(self@));
        }
        Ok(ret)
    }

    /// Ingests a validator's receipt: checks that it is a `Vrc` bound to one
    /// of our logged events and to this validator, then either verifies the
    /// signature against the validator's current key and files it under the
    /// receipts, or - when the validator seal names a tip we have not yet
    /// observed - escrows it without error.
    #[verifier::rlimit(100)]
    pub fn add_sig(&mut self, validator: &IdentifierState, sigs: SignedEventMessage) -> (r:
        Result<(), Error>)
        requires
            wf_log(old(self)@),
        ensures
            r == ingest(old(self)@, validator@, sigs@).0,
            final(self)@ == ingest(old(self)@, validator@, sigs@).1,
            wf_log(final(self)@),
    {
        let ghost old_view = self@;
        let ghost sv = sigs@;
        match &sigs.event_message.event.event_data {
            EventData::Vrc(v) => {
                let sn = sigs.event_message.event.sn;
                if sn >= self.log.len() as u64 {
                    proof {
                        lemma_wf_log_frame(old_view, self@);
                    }
                    return Err(Error::SemanticError(SemanticKind::IncorrectReceiptSn));
                }
                let event_ser = (&self.log[sn as usize]).event_message.serialize();
                let event_dig = blake3_digest(event_ser.as_slice());
                let bind_ok = crate::state::id_eq(
                    &sigs.event_message.event.prefix,
                    &self.state.prefix,
                ) && crate::state::eq_bytes(
                    v.receipted_event_digest.raw.as_slice(),
                    event_dig.as_slice(),
                ) && crate::state::id_eq(&v.validator_location_seal.prefix, &validator.prefix);
                if !bind_ok {
                    proof {
                        lemma_wf_log_frame(old_view, self@);
                    }
                    return Err(Error::SemanticError(SemanticKind::IncorrectReceiptBinding));
                }
                let val_dig = blake3_digest(validator.last.as_slice());
                if !crate::state::eq_bytes(
                    v.validator_location_seal.event_digest.raw.as_slice(),
                    val_dig.as_slice(),
                ) {
                    self.escrow_sigs.push(sigs);
                    proof {
                        assert(self@.escrow =~= old_view.escrow.push(sv));
                        assert(self@ =~= ingest(old_view, validator@, sv).1);
                        lemma_wf_log_frame(old_view, self@);
                    }
                    return Ok(());
                }
                if !(sigs.signatures.len() == 1 && sigs.signatures[0].index == 0) {
                    proof {
                        lemma_wf_log_frame(old_view, self@);
                    }
                    return Err(Error::SemanticError(SemanticKind::WrongSignatureCount));
                }
                if validator.current_keys.public_keys.len() < 1 {
                    proof {
                        lemma_wf_log_frame(old_view, self@);
                    }
                    return Err(Error::SemanticError(SemanticKind::MissingKeys));
                }
                if !validator.current_keys.public_keys[0].verify(
                    event_ser.as_slice(),
                    sigs.signatures[0].sig.raw.as_slice(),
                ) {
                    proof {
                        lemma_wf_log_frame(old_view, self@);
                    }
                    return Err(Error::CryptoError);
                }
                proof {
                    assert(old_view.log[sv.event.sn as int] == self.log@[sv.event.sn as int]@);
                    assert(receipt_ok(old_view, sv));
                }
                self.receipts.push(sigs);
                proof {
                    assert(self@.receipts =~= old_view.receipts.push(sv));
                    assert(self@ =~= ingest(old_view, validator@, sv).1);
                    assert forall|i: int| 0 <= i < self@.receipts.len() implies receipt_ok(
                        self@,
                        #[trigger] self@.receipts[i],
                    ) by {
                        if i < old_view.receipts.len() {
                            assert(receipt_ok(old_view, old_view.receipts[i]));
                        }
                    }
                }
                Ok(())
            },
            _ => {
                proof {
                    lemma_wf_log_frame(old_view, self@);
                    assert(wf_log(self@));
                }
                Err(Error::SemanticError(SemanticKind::NotAReceipt))
            },
        }
    }

    /// Re-evaluates the escrow against a validator's advanced state: receipts
    /// whose seal now matches the validator's tip and whose signature
    /// verifies move to the filed receipts; receipts still waiting for that
    /// tip stay in escrow; anything else is discarded.
    #[verifier::rlimit(100)]
    pub fn process_escrow(&mut self, validator: &IdentifierState)
        requires
            wf_log(old(self)@),
        ensures
            wf_log(final(self)@),
            final(self)@.receipts == old(self)@.receipts + sift(
                old(self)@,
                validator@,
                old(self)@.escrow,
            ).0,
            final(self)@.escrow == sift(old(self)@, validator@, old(self)@.escrow).1,
            final(self)@.log == old(self)@.log,
            final(self)@.state == old(self)@.state,
            final(self)@.keypair == old(self)@.keypair,
            final(self)@.next_keypair == old(self)@.next_keypair,
    {
        let ghost old_view = self@;
        let mut kept: Vec<SignedEventMessage> = Vec::new();
        let mut k: usize = 0;
        while k < self.escrow_sigs.len()
            invariant
                wf_log(old_view),
                wf_log(self@),
                0 <= k <= self.escrow_sigs@.len(),
                self@.escrow == old_view.escrow,
                self@.log == old_view.log,
                self@.state == old_view.state,
                self@.keypair == old_view.keypair,
                self@.next_keypair == old_view.next_keypair,
                self@.receipts == old_view.receipts + sift(
                    old_view,
                    validator@,
                    old_view.escrow.subrange(0, k as int),
                ).0,
                kept@.map_values(|m: SignedEventMessage| m@) == sift(
                    old_view,
                    validator@,
                    old_view.escrow.subrange(0, k as int),
                ).1,
            decreases self.escrow_sigs@.len() - k,
        {
            let ghost pre = old_view.escrow.subrange(0, k as int);
            let ghost post = old_view.escrow.subrange(0, k as int + 1);
            proof {
                assert(post.drop_last() =~= pre);
                assert(post.last() == old_view.escrow[k as int]);
                assert(old_view.escrow[k as int] == self.escrow_sigs@[k as int]@);
            }
            let m = &self.escrow_sigs[k];
            let ghost mv = m@;
            let mut accept = false;
            let mut keep = false;
            match &m.event_message.event.event_data {
                EventData::Vrc(v) => {
                    let sn = m.event_message.event.sn;
                    if sn < self.log.len() as u64 {
                        let event_ser = (&self.log[sn as usize]).event_message.serialize();
                        let event_dig = blake3_digest(event_ser.as_slice());
                        let bind_ok = crate::state::id_eq(
                            &m.event_message.event.prefix,
                            &self.state.prefix,
                        ) && crate::state::eq_bytes(
                            v.receipted_event_digest.raw.as_slice(),
                            event_dig.as_slice(),
                        ) && crate::state::id_eq(
                            &v.validator_location_seal.prefix,
                            &validator.prefix,
                        );
                        if bind_ok {
                            let val_dig = blake3_digest(validator.last.as_slice());
                            let seal_ok = crate::state::eq_bytes(
                                v.validator_location_seal.event_digest.raw.as_slice(),
                                val_dig.as_slice(),
                            );
                            if !seal_ok {
                                keep = true;
                            } else if m.signatures.len() == 1 && m.signatures[0].index == 0
                                && validator.current_keys.public_keys.len() >= 1
                                && validator.current_keys.public_keys[0].verify(
                                event_ser.as_slice(),
                                m.signatures[0].sig.raw.as_slice(),
                            ) {
                                accept = true;
                            }
                        }
                    }
                },
                _ => {},
            }
            proof {
                assert(accept == escrow_accept(old_view, validator@, mv));
                assert(!accept ==> keep == escrow_keep(old_view, validator@, mv));
            }
            if accept {
                let ghost before = self@;
                let c = copy_signed(m);
                self.receipts.push(c);
                proof {
                    assert(self@.receipts =~= before.receipts.push(mv));
                    assert(sift(old_view, validator@, post).0 =~= sift(
                        old_view,
                        validator@,
                        pre,
                    ).0.push(mv));
                    assert(self@.receipts =~= old_view.receipts + sift(
                        old_view,
                        validator@,
                        post,
                    ).0);
                    lemma_wf_log_push_receipt(before, self@, mv);
                }
            } else if keep {
                let c = copy_signed(m);
                kept.push(c);
                proof {
                    assert(kept@.map_values(|m2: SignedEventMessage| m2@) =~= sift(
                        old_view,
                        validator@,
                        post,
                    ).1);
                }
            } else {
                proof {
                    assert(sift(old_view, validator@, post) == sift(old_view, validator@, pre));
                }
            }
            k = k + 1;
        }
        proof {
            assert(old_view.escrow.subrange(0, k as int) =~= old_view.escrow);
        }
        let ghost before_swap = self@;
        self.escrow_sigs = kept;
        proof {
            lemma_wf_log_frame(before_swap, self@);
        }
    }
}

/// A receipt in escrow that binds to our log and to this validator.
pub open spec fn escrow_binding_ok(l: LogV, val: IdStateV, m: SignedEventV) -> bool {
    &&& m.event.event_data is Vrc
    &&& m.event.sn < l.log.len()
    &&& m.event.prefix == l.state.prefix
    &&& m.event.event_data->Vrc_0.receipted_event_digest == blake3_of(
        ser_event(l.log[m.event.sn as int].event),
    )
    &&& m.event.event_data->Vrc_0.validator_location_seal.prefix == val.prefix
}

/// The validator seal names the validator's current tip.
pub open spec fn escrow_seal_ok(val: IdStateV, m: SignedEventV) -> bool {
    m.event.event_data->Vrc_0.validator_location_seal.event_digest == blake3_of(val.last)
}

/// An escrowed receipt that can now be filed: seal matches and the signature
/// verifies under the validator's current key.
pub open spec fn escrow_accept(l: LogV, val: IdStateV, m: SignedEventV) -> bool {
    &&& escrow_binding_ok(l, val, m)
    &&& escrow_seal_ok(val, m)
    &&& m.signatures.len() == 1 && m.signatures[0].index == 0
    &&& val.current_keys.public_keys.len() >= 1
    &&& ed25519_verify_ok(
        val.current_keys.public_keys[0],
        ser_event(l.log[m.event.sn as int].event),
        m.signatures[0].sig,
    )
}

/// An escrowed receipt that still waits: bound to us, but the validator tip
/// it names has not been observed yet.
pub open spec fn escrow_keep(l: LogV, val: IdStateV, m: SignedEventV) -> bool {
    escrow_binding_ok(l, val, m) && !escrow_seal_ok(val, m)
}

/// Splits an escrow into what is filed and what stays, in order.
pub open spec fn sift(l: LogV, val: IdStateV, es: Seq<SignedEventV>) -> (
    Seq<SignedEventV>,
    Seq<SignedEventV>,
)
    decreases es.len(),
{
    if es.len() == 0 {
        (Seq::empty(), Seq::empty())
    } else {
        let prior = sift(l, val, es.drop_last());
        let m = es.last();
        if escrow_accept(l, val, m) {
            (prior.0.push(m), prior.1)
        } else if escrow_keep(l, val, m) {
            (prior.0, prior.1.push(m))
        } else {
            prior
        }
    }
}

// Laws of a well-formed log, stated on their own so a reader sees them.

/// The hash chain: every event after the first is a rotation or interaction
/// whose previous-event hash is the digest of the preceding event's canonical
/// bytes.
pub proof fn lemma_log_chained(l: LogV, i: int)
    requires
        wf_log(l),
        1 <= i < l.log.len(),
    ensures
        l.log[i].event.event_data is Rot || l.log[i].event.event_data is Ixn,
        prev_hash_of(l.log[i].event.event_data) == blake3_of(ser_event(l.log[i - 1].event)),
{
    assert(chained(l, i));
}

/// Every filed receipt names a logged event and carries the digest of exactly
/// that event's canonical bytes.
pub proof fn lemma_receipt_digest(l: LogV, i: int)
    requires
        wf_log(l),
        0 <= i < l.receipts.len(),
    ensures
        l.receipts[i].event.event_data is Vrc,
        l.receipts[i].event.sn < l.log.len(),
        l.receipts[i].event.event_data->Vrc_0.receipted_event_digest == blake3_of(
            ser_event(l.log[l.receipts[i].event.sn as int].event),
        ),
{
    assert(receipt_ok(l, l.receipts[i]));
}

/// The pre-rotation commitment is live: the state's next-keys digest is the
/// digest of the textual form of the pre-rotated public key, so only that key
/// can sign the next rotation.
pub proof fn lemma_pre_rotation_live(l: LogV)
    requires
        wf_log(l),
    ensures
        l.state.next_keys_digest == blake3_of(basic_text(l.next_keypair.0)),
{
}

/// The log length always equals the current sequence number plus one.
pub proof fn lemma_log_length(l: LogV)
    requires
        wf_log(l),
    ensures
        l.log.len() == l.state.sn + 1,
        l.log[l.log.len() - 1].event.sn == l.state.sn,
{
}

} // verus!

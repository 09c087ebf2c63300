use tda::errors::{Error, SemanticKind};
use tda::event::{Event, EventData, KeyConfig, RotationEvent, SerializationFormats, WitnessConfig};
use tda::instance::KeriInstance;
use tda::log_state::LogState;
use tda::prefix::{AttachedSignaturePrefix, BasicPrefix, IdentifierPrefix, SelfAddressingPrefix};
use tda::state::IdentifierState;
use std::str::FromStr;

#[test]
fn inception_establishes_the_log() {
    let ls = LogState::new().unwrap();
    assert_eq!(ls.log.len(), 1);
    assert_eq!(ls.state.sn, 0);
    assert!(ls.receipts.is_empty());
    assert!(ls.escrow_sigs.is_empty());
    // The identifier prefix is the digest of the canonical inception data.
    let body = tda::ser::serialize_data(&ls.log[0].event_message.event.event_data);
    let dig = tda::crypto::blake3_digest(&body);
    match &ls.state.prefix {
        IdentifierPrefix::SelfAddressing(d) => assert_eq!(d.raw, dig),
        _ => panic!("identifier must be self-addressing"),
    }
}

#[test]
fn rotation_and_interaction_chain_the_log() {
    let mut ls = LogState::new().unwrap();
    let old_next_pk = ls.next_keypair.0.clone();
    let old_commitment = ls.state.next_keys_digest.raw.clone();
    let rot = ls.rotate().unwrap();
    // Pre-rotation: the rotation is signed by the committed keypair.
    match &rot.event_message.event.event_data {
        EventData::Rot(r) => {
            assert_eq!(r.key_config.public_keys[0].raw, old_next_pk);
            let text = r.key_config.public_keys[0].to_str();
            assert_eq!(tda::crypto::blake3_digest(&text), old_commitment);
        }
        _ => panic!("rotate must produce a rotation event"),
    }
    ls.make_ixn(b"hello").unwrap();
    assert_eq!(ls.log.len() as u64, ls.state.sn + 1);
    // Every event names the digest of its predecessor.
    for i in 1..ls.log.len() {
        let prev_ser = ls.log[i - 1].event_message.serialize();
        let prev_dig = tda::crypto::blake3_digest(&prev_ser);
        match &ls.log[i].event_message.event.event_data {
            EventData::Rot(r) => assert_eq!(r.previous_event_hash.raw, prev_dig),
            EventData::Ixn(x) => assert_eq!(x.previous_event_hash.raw, prev_dig),
            _ => panic!("only the first event may be an inception"),
        }
    }
}

#[test]
fn interaction_anchors_the_payload_digest() {
    let mut ls = LogState::new().unwrap();
    let keys_before = ls.state.current_keys.public_keys[0].raw.clone();
    let ixn = ls.make_ixn(b"hello").unwrap();
    match &ixn.event_message.event.event_data {
        EventData::Ixn(x) => {
            assert_eq!(x.data.len(), 1);
            match &x.data[0] {
                tda::event::Seal::Digest(d) => {
                    assert_eq!(d.dig.raw, tda::crypto::blake3_digest(b"hello"))
                }
                _ => panic!("the single seal must be a digest seal"),
            }
        }
        _ => panic!("make_ixn must produce an interaction event"),
    }
    assert_eq!(ls.state.sn, 1);
    assert_eq!(ls.state.current_keys.public_keys[0].raw, keys_before);
}

#[test]
fn serialization_round_trip() {
    let mut ls = LogState::new().unwrap();
    ls.rotate().unwrap();
    ls.make_ixn(b"payload").unwrap();
    let rct = ls
        .make_rct(&ls.log[0].event_message)
        .unwrap();
    for msg in ls.log.iter().chain(std::iter::once(&rct)) {
        let bytes = msg.serialize();
        let back = tda::parse::signed_message(&bytes).unwrap();
        assert_eq!(back.serialize(), bytes);
    }
}

#[test]
fn deserialization_rejects_noncanonical_input() {
    assert!(matches!(
        tda::parse::signed_message(b"not an event"),
        Err(Error::DeserializationError)
    ));
    let ls = LogState::new().unwrap();
    let mut bytes = ls.log[0].serialize();
    let n = bytes.len();
    bytes.truncate(n - 1);
    assert!(matches!(
        tda::parse::signed_message(&bytes),
        Err(Error::DeserializationError)
    ));
}

#[test]
fn prefix_text_round_trip() {
    let raw: Vec<u8> = (0u8..32).collect();
    let b = BasicPrefix { raw: raw.clone() };
    let text = b.to_str();
    assert_eq!(text.len(), 44);
    match IdentifierPrefix::from_str(&text).unwrap() {
        IdentifierPrefix::Basic(back) => assert_eq!(back.raw, raw),
        _ => panic!("a D-tagged text must decode as a Basic prefix"),
    }
    let d = SelfAddressingPrefix { raw: raw.clone() };
    match IdentifierPrefix::from_str(&d.to_str()).unwrap() {
        IdentifierPrefix::SelfAddressing(back) => assert_eq!(back.raw, raw),
        _ => panic!("an E-tagged text must decode as a SelfAddressing prefix"),
    }
}

#[test]
fn prefix_text_errors() {
    assert!(matches!(IdentifierPrefix::from_str(b""), Err(Error::ShortPrefix)));
    assert!(matches!(IdentifierPrefix::from_str(b"Dabc"), Err(Error::ShortPrefix)));
    let raw: Vec<u8> = (0u8..32).collect();
    let mut text = BasicPrefix { raw }.to_str();
    text[0] = b'Z';
    assert!(matches!(
        IdentifierPrefix::from_str(&text),
        Err(Error::MalformedPrefix)
    ));
}

#[test]
fn blake3_wrapper_digests() {
    let d1 = tda::crypto::blake3_digest(b"a");
    let d2 = tda::crypto::blake3_digest(b"b");
    assert_eq!(d1.len(), 32);
    assert_ne!(d1, d2);
    assert_eq!(d1, tda::crypto::blake3_digest(b"a"));
}

#[test]
fn ed25519_wrappers_sign_and_verify() {
    let (pk, sk) = tda::crypto::ed25519_keypair();
    assert_eq!(pk.len(), 32);
    assert_eq!(sk.len(), 64);
    let sig = tda::crypto::ed25519_sign(b"msg", &sk).unwrap();
    assert_eq!(sig.len(), 64);
    assert!(tda::crypto::ed25519_verify(b"msg", &sig, &pk));
    assert!(!tda::crypto::ed25519_verify(b"other", &sig, &pk));
}

#[test]
fn inception_exchange() {
    // S1: A and B both incept; A sends its inception to B.
    let a_log = LogState::new().unwrap();
    let b_log = LogState::new().unwrap();
    let a_pref = a_log.state.prefix.to_str();
    let b_pref = b_log.state.prefix.to_str();
    let a_icp_bytes = a_log.log[0].serialize();
    let a_icp_msg_bytes = a_log.log[0].event_message.serialize();
    let b_icp_bytes = b_log.log[0].serialize();

    let mut b_inst = KeriInstance::new(b_log, IdentifierState::default());
    let reply = b_inst.parse_event(&a_icp_bytes);
    let events = tda::parse::signed_event_stream(&reply).unwrap();
    assert_eq!(events.len(), 2);
    // First: B's inception.
    assert_eq!(events[0].serialize(), b_icp_bytes);
    // Second: a receipt bound to A's event.
    assert_eq!(events[1].event_message.event.prefix.to_str(), a_pref);
    assert_eq!(events[1].event_message.event.sn, 0);
    match &events[1].event_message.event.event_data {
        EventData::Vrc(v) => {
            assert_eq!(v.receipted_event_digest.raw, tda::crypto::blake3_digest(&a_icp_msg_bytes));
            assert_eq!(v.validator_location_seal.prefix.to_str(), b_pref);
        }
        _ => panic!("second reply event must be a receipt"),
    }
    // A ingests the reply.
    let mut a_inst = KeriInstance::new(a_log, IdentifierState::default());
    for ev in events {
        let back = a_inst.handle_response_event(ev);
        assert!(back.is_some() || a_inst.log.receipts.len() == 1);
    }
    assert_eq!(a_inst.log.receipts.len(), 1);
    assert_eq!(a_inst.log.receipts[0].event_message.event.sn, 0);
    assert_eq!(a_inst.state.sn, 0);
    assert_eq!(a_inst.state.prefix.to_str(), b_pref);
}

#[test]
fn rotation_receipt_after_exchange() {
    // S2: after the inception exchange, A rotates and sends the event to B.
    let a_log = LogState::new().unwrap();
    let b_log = LogState::new().unwrap();
    let a_icp_bytes = a_log.log[0].serialize();
    let mut b_inst = KeriInstance::new(b_log, IdentifierState::default());
    let reply = b_inst.parse_event(&a_icp_bytes);
    let mut a_inst = KeriInstance::new(a_log, IdentifierState::default());
    for ev in tda::parse::signed_event_stream(&reply).unwrap() {
        a_inst.handle_response_event(ev);
    }

    let rot = a_inst.log.rotate().unwrap();
    let reply2 = b_inst.parse_event(&rot.serialize());
    let events2 = tda::parse::signed_event_stream(&reply2).unwrap();
    assert_eq!(events2.len(), 1);
    assert!(matches!(
        events2[0].event_message.event.event_data,
        EventData::Vrc(_)
    ));
    for ev in events2 {
        a_inst.handle_response_event(ev);
    }
    assert_eq!(a_inst.log.receipts.len(), 2);
    assert_eq!(a_inst.log.receipts[1].event_message.event.sn, 1);
    assert_eq!(a_inst.log.state.sn, 1);
}

#[test]
fn pre_rotation_violation_is_rejected() {
    // S3: a rotation signed by a key other than the committed one.
    let ls = LogState::new().unwrap();
    let (rogue_pk, rogue_sk) = tda::crypto::ed25519_keypair();
    let prev = SelfAddressingPrefix {
        raw: tda::crypto::blake3_digest(&ls.state.last),
    };
    let rogue_bp = BasicPrefix { raw: rogue_pk };
    let commitment = SelfAddressingPrefix {
        raw: tda::crypto::blake3_digest(&rogue_bp.to_str()),
    };
    let ev = Event {
        prefix: tda::state::copy_id(&ls.state.prefix),
        sn: ls.state.sn + 1,
        event_data: EventData::Rot(RotationEvent {
            previous_event_hash: prev,
            key_config: KeyConfig {
                threshold: 1,
                public_keys: vec![rogue_bp],
                threshold_key_digest: commitment,
            },
            witness_config: WitnessConfig {
                tally: 0,
                prune: Vec::new(),
                graft: Vec::new(),
            },
            data: Vec::new(),
        }),
    }
    .to_message(SerializationFormats::Json);
    let ser = ev.serialize();
    let sig = tda::crypto::ed25519_sign(&ser, &rogue_sk).unwrap();
    let signed = ev.sign(vec![AttachedSignaturePrefix::new(sig, 0)]);
    let before_sn = ls.state.sn;
    let r = ls.state.verify_and_apply(&signed);
    assert_eq!(
        r.err().unwrap(),
        Error::SemanticError(SemanticKind::PreRotationMismatch)
    );
    assert_eq!(ls.state.sn, before_sn);
}

#[test]
fn out_of_order_receipt_is_escrowed() {
    // S4: B receipts A's event from a tip A has not observed yet.
    let mut a_log = LogState::new().unwrap();
    let mut b_log = LogState::new().unwrap();
    // A mirrors B's inception only.
    let a_mirror = IdentifierState::default()
        .verify_and_apply(&b_log.log[0])
        .unwrap();
    // B advances and only then receipts A's inception.
    let b_rot = b_log.rotate().unwrap();
    let receipt = b_log.make_rct(&a_log.log[0].event_message).unwrap();
    let r = a_log.add_sig(&a_mirror, receipt);
    assert!(r.is_ok());
    assert_eq!(a_log.receipts.len(), 0);
    assert_eq!(a_log.escrow_sigs.len(), 1);
    // A observes B's rotation and re-evaluates the escrow.
    let a_mirror = a_mirror.verify_and_apply(&b_rot).unwrap();
    a_log.process_escrow(&a_mirror);
    assert_eq!(a_log.receipts.len(), 1);
    assert_eq!(a_log.receipts[0].event_message.event.sn, 0);
    assert_eq!(a_log.escrow_sigs.len(), 0);
}

#[test]
fn wrong_prefix_receipt_is_rejected() {
    // S6: a receipt whose outer prefix is not ours.
    let mut a_log = LogState::new().unwrap();
    let b_log = LogState::new().unwrap();
    let a_mirror = IdentifierState::default()
        .verify_and_apply(&b_log.log[0])
        .unwrap();
    // B receipts its own event instead of A's.
    let rogue = b_log.make_rct(&b_log.log[0].event_message).unwrap();
    let r = a_log.add_sig(&a_mirror, rogue);
    assert_eq!(
        r.err().unwrap(),
        Error::SemanticError(SemanticKind::IncorrectReceiptBinding)
    );
    assert_eq!(a_log.receipts.len(), 0);
    assert_eq!(a_log.escrow_sigs.len(), 0);
}

#[test]
fn transition_errors_name_the_violation() {
    let ls = LogState::new().unwrap();
    // A second inception on an established identifier.
    let r = ls.state.verify_and_apply(&ls.log[0]);
    assert_eq!(
        r.err().unwrap(),
        Error::SemanticError(SemanticKind::AlreadyIncepted)
    );
    // A receipt handed to the transition function.
    let rct = ls.make_rct(&ls.log[0].event_message).unwrap();
    let r = ls.state.verify_and_apply(&rct);
    assert_eq!(
        r.err().unwrap(),
        Error::SemanticError(SemanticKind::NotAnEstablishmentEvent)
    );
    // A rotation or interaction before inception.
    let mut other = LogState::new().unwrap();
    let ixn = other.make_ixn(b"x").unwrap();
    let r = IdentifierState::default().verify_and_apply(&ixn);
    assert_eq!(
        r.err().unwrap(),
        Error::SemanticError(SemanticKind::NotIncepted)
    );
}

#[test]
fn receipts_verify_against_the_validator_state() {
    // The regular path: a receipt from a known tip is verified and filed.
    let mut a_log = LogState::new().unwrap();
    let b_log = LogState::new().unwrap();
    let a_mirror = IdentifierState::default()
        .verify_and_apply(&b_log.log[0])
        .unwrap();
    let receipt = b_log.make_rct(&a_log.log[0].event_message).unwrap();
    a_log.add_sig(&a_mirror, receipt).unwrap();
    assert_eq!(a_log.receipts.len(), 1);
    // The filed receipt's digest matches the receipted event (digest
    // round-trip).
    match &a_log.receipts[0].event_message.event.event_data {
        EventData::Vrc(v) => assert_eq!(
            v.receipted_event_digest.raw,
            tda::crypto::blake3_digest(&a_log.log[0].event_message.serialize())
        ),
        _ => panic!("a filed receipt must be a Vrc"),
    }
    // A forged signature is refused.
    let mut forged = b_log.make_rct(&a_log.log[0].event_message).unwrap();
    forged.signatures[0].sig.raw[0] ^= 1;
    let r = a_log.add_sig(&a_mirror, forged);
    assert_eq!(r.err().unwrap(), Error::CryptoError);
}

#[test]
fn models_hold_plain_values() {
    let t1 = tda::models::Token { uuid: String::from("a") };
    let t2 = tda::models::Token { uuid: String::from("a") };
    let t3 = tda::models::Token { uuid: String::from("b") };
    assert!(t1 == t2);
    assert!(!(t1 == t3));
    let m = tda::models::Message::from_str("hi").unwrap();
    assert_eq!(m.text(), "hi");
}

#[test]
fn wrong_sequence_numbers_are_rejected() {
    let mut ls = LogState::new().unwrap();
    let ixn = ls.make_ixn(b"x").unwrap();
    // Applying the same interaction again asks for sn 1 on a state at sn 1.
    let r = ls.state.verify_and_apply(&ixn);
    assert_eq!(r.err().unwrap(), Error::SemanticError(SemanticKind::WrongSn));
}

#[test]
fn wrong_previous_hash_is_rejected() {
    let mut a = LogState::new().unwrap();
    let b = LogState::new().unwrap();
    // A mirror of A that never saw A's interaction still holds sn 0.
    let mirror = IdentifierState::default().verify_and_apply(&a.log[0]).unwrap();
    let _ = a.make_ixn(b"one").unwrap();
    let ixn2 = a.make_ixn(b"two").unwrap();
    // The second interaction's sn is two ahead of the stale mirror.
    let r = mirror.verify_and_apply(&ixn2);
    assert_eq!(r.err().unwrap(), Error::SemanticError(SemanticKind::WrongSn));
    // An event of another identifier does not bind to this mirror at all.
    let r = mirror.verify_and_apply(&b.log[0]);
    assert_eq!(
        r.err().unwrap(),
        Error::SemanticError(SemanticKind::AlreadyIncepted)
    );
}

#[test]
fn tampered_previous_hash_is_rejected() {
    let mut a = LogState::new().unwrap();
    let mirror = IdentifierState::default().verify_and_apply(&a.log[0]).unwrap();
    let mut ixn = a.make_ixn(b"payload").unwrap();
    match &mut ixn.event_message.event.event_data {
        EventData::Ixn(x) => x.previous_event_hash.raw[0] ^= 1,
        _ => panic!("make_ixn must produce an interaction event"),
    }
    let r = mirror.verify_and_apply(&ixn);
    assert_eq!(
        r.err().unwrap(),
        Error::SemanticError(SemanticKind::WrongPreviousHash)
    );
}

#[test]
fn wrong_signature_count_is_rejected() {
    let mut a = LogState::new().unwrap();
    let mirror = IdentifierState::default().verify_and_apply(&a.log[0]).unwrap();
    let mut ixn = a.make_ixn(b"payload").unwrap();
    let extra = AttachedSignaturePrefix::new(ixn.signatures[0].sig.raw.clone(), 1);
    ixn.signatures.push(extra);
    let r = mirror.verify_and_apply(&ixn);
    assert_eq!(
        r.err().unwrap(),
        Error::SemanticError(SemanticKind::WrongSignatureCount)
    );
}

#[test]
fn receipt_ingestion_rejects_non_receipts_and_unknown_sn() {
    let mut a = LogState::new().unwrap();
    let b = LogState::new().unwrap();
    let mirror = IdentifierState::default().verify_and_apply(&b.log[0]).unwrap();
    // A plain event is not a receipt.
    let icp = tda::dup::copy_signed(&b.log[0]);
    let r = a.add_sig(&mirror, icp);
    assert_eq!(r.err().unwrap(), Error::SemanticError(SemanticKind::NotAReceipt));
    // A receipt for a sequence number we have not logged.
    let mut rct = b.make_rct(&a.log[0].event_message).unwrap();
    rct.event_message.event.sn = 5;
    let r = a.add_sig(&mirror, rct);
    assert_eq!(
        r.err().unwrap(),
        Error::SemanticError(SemanticKind::IncorrectReceiptSn)
    );
}

#[test]
fn inception_passes_its_own_transition() {
    // The self-check: the fresh log's first event applies to the zero state
    // and yields exactly the log's state.
    let ls = LogState::new().unwrap();
    let replayed = IdentifierState::default().verify_and_apply(&ls.log[0]).unwrap();
    assert_eq!(replayed.sn, ls.state.sn);
    assert_eq!(replayed.prefix.to_str(), ls.state.prefix.to_str());
    assert_eq!(replayed.last, ls.state.last);
    assert_eq!(
        replayed.current_keys.public_keys[0].raw,
        ls.state.current_keys.public_keys[0].raw
    );
    assert_eq!(replayed.next_keys_digest.raw, ls.state.next_keys_digest.raw);
    // The inception fixes threshold one and the single current key.
    match &ls.log[0].event_message.event.event_data {
        EventData::Icp(e) => {
            assert_eq!(e.key_config.threshold, 1);
            assert_eq!(e.key_config.public_keys.len(), 1);
            assert_eq!(e.key_config.public_keys[0].raw, ls.keypair.0);
        }
        _ => panic!("the first event must be an inception"),
    }
    assert_eq!(ls.log[0].signatures.len(), 1);
    assert_eq!(ls.log[0].signatures[0].index, 0);
}

#[test]
fn accepted_events_are_always_answered() {
    // An inception is answered with two events, a rotation with one; never
    // with empty bytes.
    let a_log = LogState::new().unwrap();
    let b_log = LogState::new().unwrap();
    let mut b_inst = KeriInstance::new(b_log, IdentifierState::default());
    let reply = b_inst.parse_event(&a_log.log[0].serialize());
    assert!(!reply.is_empty());
    let mut a_inst = KeriInstance::new(a_log, IdentifierState::default());
    let mut receipts_sent = 0;
    for ev in tda::parse::signed_event_stream(&reply).unwrap() {
        if a_inst.handle_response_event(ev).is_some() {
            receipts_sent += 1;
        }
    }
    // B's inception earns a receipt back; B's Vrc earns none.
    assert_eq!(receipts_sent, 1);
    let rot = a_inst.log.rotate().unwrap();
    let reply2 = b_inst.parse_event(&rot.serialize());
    assert_eq!(tda::parse::signed_event_stream(&reply2).unwrap().len(), 1);
}

use vstd::prelude::*;

use crate::prefix::{
    attsig_wf, id_wf, AttSigV, AttachedSignaturePrefix, BasicPrefix, IdPrefV, IdentifierPrefix,
    SelfAddressingPrefix,
};

verus! {

// The typed event model: tagged variants over key configurations, witness
// configurations and seals. Each executable type has a mathematical view in
// which every byte string is a `Seq<u8>`.

/// Signing keys of an identifier plus the pre-rotation commitment: the digest
/// of the textual form of the next establishment event's first public key.
pub struct KeyConfig {
    pub threshold: u64,
    pub public_keys: Vec<BasicPrefix>,
    pub threshold_key_digest: SelfAddressingPrefix,
}

#[verifier::ext_equal]
pub ghost struct KeyConfigV {
    pub threshold: u64,
    pub public_keys: Seq<Seq<u8>>,
    pub threshold_key_digest: Seq<u8>,
}

impl View for KeyConfig {
    type V = KeyConfigV;

    open spec fn view(&self) -> KeyConfigV {
        KeyConfigV {
            threshold: self.threshold,
            public_keys: self.public_keys@.map_values(|b: BasicPrefix| b@),
            threshold_key_digest: self.threshold_key_digest@,
        }
    }
}

/// Witnesses named at inception.
pub struct InceptionWitnessConfig {
    pub tally: u64,
    pub initial_witnesses: Vec<BasicPrefix>,
}

#[verifier::ext_equal]
pub ghost struct InceptionWitnessConfigV {
    pub tally: u64,
    pub initial_witnesses: Seq<Seq<u8>>,
}

impl View for InceptionWitnessConfig {
    type V = InceptionWitnessConfigV;

    open spec fn view(&self) -> InceptionWitnessConfigV {
        InceptionWitnessConfigV {
            tally: self.tally,
            initial_witnesses: self.initial_witnesses@.map_values(|b: BasicPrefix| b@),
        }
    }
}

/// Witness changes carried by a rotation.
pub struct WitnessConfig {
    pub tally: u64,
    pub prune: Vec<BasicPrefix>,
    pub graft: Vec<BasicPrefix>,
}

#[verifier::ext_equal]
pub ghost struct WitnessConfigV {
    pub tally: u64,
    pub prune: Seq<Seq<u8>>,
    pub graft: Seq<Seq<u8>>,
}

impl View for WitnessConfig {
    type V = WitnessConfigV;

    open spec fn view(&self) -> WitnessConfigV {
        WitnessConfigV {
            tally: self.tally,
            prune: self.prune@.map_values(|b: BasicPrefix| b@),
            graft: self.graft@.map_values(|b: BasicPrefix| b@),
        }
    }
}

/// Binds an event of some identifier by prefix and digest.
pub struct EventSeal {
    pub prefix: IdentifierPrefix,
    pub event_digest: SelfAddressingPrefix,
}

#[verifier::ext_equal]
pub ghost struct EventSealV {
    pub prefix: IdPrefV,
    pub event_digest: Seq<u8>,
}

impl View for EventSeal {
    type V = EventSealV;

    open spec fn view(&self) -> EventSealV {
        EventSealV { prefix: self.prefix@, event_digest: self.event_digest@ }
    }
}

/// Anchors an arbitrary payload by its digest.
pub struct DigestSeal {
    pub dig: SelfAddressingPrefix,
}

pub enum Seal {
    Digest(DigestSeal),
    Event(EventSeal),
}

#[verifier::ext_equal]
pub enum SealV {
    Digest(Seq<u8>),
    Event(EventSealV),
}

impl View for Seal {
    type V = SealV;

    open spec fn view(&self) -> SealV {
        match self {
            Seal::Digest(d) => SealV::Digest(d.dig@),
            Seal::Event(e) => SealV::Event(e@),
        }
    }
}

/// Inception: establishes the identifier and its first keys.
pub struct InceptionEvent {
    pub key_config: KeyConfig,
    pub witness_config: InceptionWitnessConfig,
    pub inception_configuration: Vec<SelfAddressingPrefix>,
}

#[verifier::ext_equal]
pub ghost struct InceptionEventV {
    pub key_config: KeyConfigV,
    pub witness_config: InceptionWitnessConfigV,
    pub inception_configuration: Seq<Seq<u8>>,
}

impl View for InceptionEvent {
    type V = InceptionEventV;

    open spec fn view(&self) -> InceptionEventV {
        InceptionEventV {
            key_config: self.key_config@,
            witness_config: self.witness_config@,
            inception_configuration: self.inception_configuration@.map_values(
                |d: SelfAddressingPrefix| d@,
            ),
        }
    }
}

/// Rotation: replaces the keys, committing to the next set.
pub struct RotationEvent {
    pub previous_event_hash: SelfAddressingPrefix,
    pub key_config: KeyConfig,
    pub witness_config: WitnessConfig,
    pub data: Vec<Seal>,
}

#[verifier::ext_equal]
pub ghost struct RotationEventV {
    pub previous_event_hash: Seq<u8>,
    pub key_config: KeyConfigV,
    pub witness_config: WitnessConfigV,
    pub data: Seq<SealV>,
}

impl View for RotationEvent {
    type V = RotationEventV;

    open spec fn view(&self) -> RotationEventV {
        RotationEventV {
            previous_event_hash: self.previous_event_hash@,
            key_config: self.key_config@,
            witness_config: self.witness_config@,
            data: self.data@.map_values(|s: Seal| s@),
        }
    }
}

/// Interaction: anchors seals without changing keys.
pub struct InteractionEvent {
    pub previous_event_hash: SelfAddressingPrefix,
    pub data: Vec<Seal>,
}

#[verifier::ext_equal]
pub ghost struct InteractionEventV {
    pub previous_event_hash: Seq<u8>,
    pub data: Seq<SealV>,
}

impl View for InteractionEvent {
    type V = InteractionEventV;

    open spec fn view(&self) -> InteractionEventV {
        InteractionEventV {
            previous_event_hash: self.previous_event_hash@,
            data: self.data@.map_values(|s: Seal| s@),
        }
    }
}

/// Transferable validator receipt: the digest of the receipted event plus a
/// seal naming the validator's own current tip.
pub struct ReceiptTransferable {
    pub receipted_event_digest: SelfAddressingPrefix,
    pub validator_location_seal: EventSeal,
}

#[verifier::ext_equal]
pub ghost struct ReceiptTransferableV {
    pub receipted_event_digest: Seq<u8>,
    pub validator_location_seal: EventSealV,
}

impl View for ReceiptTransferable {
    type V = ReceiptTransferableV;

    open spec fn view(&self) -> ReceiptTransferableV {
        ReceiptTransferableV {
            receipted_event_digest: self.receipted_event_digest@,
            validator_location_seal: self.validator_location_seal@,
        }
    }
}

pub enum EventData {
    Icp(InceptionEvent),
    Rot(RotationEvent),
    Ixn(InteractionEvent),
    Vrc(ReceiptTransferable),
}

#[verifier::ext_equal]
pub enum EventDataV {
    Icp(InceptionEventV),
    Rot(RotationEventV),
    Ixn(InteractionEventV),
    Vrc(ReceiptTransferableV),
}

impl View for EventData {
    type V = EventDataV;

    open spec fn view(&self) -> EventDataV {
        match self {
            EventData::Icp(e) => EventDataV::Icp(e@),
            EventData::Rot(e) => EventDataV::Rot(e@),
            EventData::Ixn(e) => EventDataV::Ixn(e@),
            EventData::Vrc(e) => EventDataV::Vrc(e@),
        }
    }
}

/// One event of a key event log.
pub struct Event {
    pub prefix: IdentifierPrefix,
    pub sn: u64,
    pub event_data: EventData,
}

#[verifier::ext_equal]
pub ghost struct EventV {
    pub prefix: IdPrefV,
    pub sn: u64,
    pub event_data: EventDataV,
}

impl View for Event {
    type V = EventV;

    open spec fn view(&self) -> EventV {
        EventV { prefix: self.prefix@, sn: self.sn, event_data: self.event_data@ }
    }
}

/// The canonical serialization formats; only JSON exists in this core.
pub enum SerializationFormats {
    Json,
}

/// An event paired with its serialization format tag.
pub struct EventMessage {
    pub event: Event,
    pub format: SerializationFormats,
}

impl View for EventMessage {
    type V = EventV;

    open spec fn view(&self) -> EventV {
        self.event@
    }
}

/// An event message plus the attached signatures over its serialization.
pub struct SignedEventMessage {
    pub event_message: EventMessage,
    pub signatures: Vec<AttachedSignaturePrefix>,
}

#[verifier::ext_equal]
pub ghost struct SignedEventV {
    pub event: EventV,
    pub signatures: Seq<AttSigV>,
}

impl View for SignedEventMessage {
    type V = SignedEventV;

    open spec fn view(&self) -> SignedEventV {
        SignedEventV {
            event: self.event_message@,
            signatures: self.signatures@.map_values(|a: AttachedSignaturePrefix| a@),
        }
    }
}

impl Event {
    /// Pairs the event with a serialization format.
    pub fn to_message(self, format: SerializationFormats) -> (r: EventMessage)
        ensures
            r.event == self,
    {
        EventMessage { event: self, format }
    }
}

impl EventMessage {
    /// Attaches signatures to the message.
    pub fn sign(self, signatures: Vec<AttachedSignaturePrefix>) -> (r: SignedEventMessage)
        ensures
            r.event_message == self,
            r.signatures == signatures,
    {
        SignedEventMessage { event_message: self, signatures }
    }
}

// Well-formedness: every raw byte string has the length its derivation
// demands, and signature counts fit the one-character count of the wire form.

pub open spec fn wf_keyconfig(k: KeyConfigV) -> bool {
    &&& k.threshold_key_digest.len() == 32
    &&& forall|i: int| 0 <= i < k.public_keys.len() ==> (#[trigger] k.public_keys[i]).len() == 32
}

pub open spec fn wf_blist(ks: Seq<Seq<u8>>) -> bool {
    forall|i: int| 0 <= i < ks.len() ==> (#[trigger] ks[i]).len() == 32
}

pub open spec fn wf_seal(s: SealV) -> bool {
    match s {
        SealV::Digest(d) => d.len() == 32,
        SealV::Event(e) => id_wf(e.prefix) && e.event_digest.len() == 32,
    }
}

pub open spec fn wf_seallist(ss: Seq<SealV>) -> bool {
    forall|i: int| 0 <= i < ss.len() ==> wf_seal(#[trigger] ss[i])
}

pub open spec fn wf_data(d: EventDataV) -> bool {
    match d {
        EventDataV::Icp(e) => {
            &&& wf_keyconfig(e.key_config)
            &&& wf_blist(e.witness_config.initial_witnesses)
            &&& wf_blist(e.inception_configuration)
        },
        EventDataV::Rot(e) => {
            &&& e.previous_event_hash.len() == 32
            &&& wf_keyconfig(e.key_config)
            &&& wf_blist(e.witness_config.prune)
            &&& wf_blist(e.witness_config.graft)
            &&& wf_seallist(e.data)
        },
        EventDataV::Ixn(e) => {
            &&& e.previous_event_hash.len() == 32
            &&& wf_seallist(e.data)
        },
        EventDataV::Vrc(e) => {
            &&& e.receipted_event_digest.len() == 32
            &&& id_wf(e.validator_location_seal.prefix)
            &&& e.validator_location_seal.event_digest.len() == 32
        },
    }
}

pub open spec fn wf_event(e: EventV) -> bool {
    id_wf(e.prefix) && wf_data(e.event_data)
}

pub open spec fn wf_signed(v: SignedEventV) -> bool {
    &&& wf_event(v.event)
    &&& v.signatures.len() < 64
    &&& forall|i: int| 0 <= i < v.signatures.len() ==> attsig_wf(#[trigger] v.signatures[i])
}

} // verus!

use vstd::prelude::*;

use crate::event::{
    Event, EventData, EventMessage, EventSeal, InceptionEvent, InceptionWitnessConfig,
    InteractionEvent, ReceiptTransferable, RotationEvent, Seal, SerializationFormats,
    SignedEventMessage, WitnessConfig,
};
use crate::prefix::AttachedSignaturePrefix;
use crate::prefix::SelfSigningPrefix;
use crate::state::{copy_basic, copy_basics, copy_bytes, copy_id, copy_keyconfig, copy_sap};

verus! {

// Deep copies of event values, each equal to its source at the view level.
// The log both returns an event to the caller and appends it, so one of the
// two must be a copy.

pub fn copy_attsig(a: &AttachedSignaturePrefix) -> (r: AttachedSignaturePrefix)
    ensures
        r@ == a@,
{
    AttachedSignaturePrefix { index: a.index, sig: SelfSigningPrefix { raw: copy_bytes(&a.sig.raw) } }
}

pub fn copy_attsigs(v: &Vec<AttachedSignaturePrefix>) -> (r: Vec<AttachedSignaturePrefix>)
    ensures
        r@.map_values(|a: AttachedSignaturePrefix| a@) == v@.map_values(
            |a: AttachedSignaturePrefix| a@,
        ),
{
    let mut out: Vec<AttachedSignaturePrefix> = Vec::new();
    let mut k: usize = 0;
    while k < v.len()
        invariant
            0 <= k <= v@.len(),
            out@.len() == k,
            forall|t: int| 0 <= t < k ==> (#[trigger] out@[t])@ == v@[t]@,
        decreases v@.len() - k,
    {
        out.push(copy_attsig(&v[k]));
        k = k + 1;
    }
    proof {
        assert(out@.map_values(|a: AttachedSignaturePrefix| a@) =~= v@.map_values(
            |a: AttachedSignaturePrefix| a@,
        ));
    }
    out
}

pub fn copy_seal(s: &Seal) -> (r: Seal)
    ensures
        r@ == s@,
{
    match s {
        Seal::Digest(d) => Seal::Digest(crate::event::DigestSeal { dig: copy_sap(&d.dig) }),
        Seal::Event(e) => Seal::Event(
            EventSeal { prefix: copy_id(&e.prefix), event_digest: copy_sap(&e.event_digest) },
        ),
    }
}

pub fn copy_seals(v: &Vec<Seal>) -> (r: Vec<Seal>)
    ensures
        r@.map_values(|s: Seal| s@) == v@.map_values(|s: Seal| s@),
{
    let mut out: Vec<Seal> = Vec::new();
    let mut k: usize = 0;
    while k < v.len()
        invariant
            0 <= k <= v@.len(),
            out@.len() == k,
            forall|t: int| 0 <= t < k ==> (#[trigger] out@[t])@ == v@[t]@,
        decreases v@.len() - k,
    {
        out.push(copy_seal(&v[k]));
        k = k + 1;
    }
    proof {
        assert(out@.map_values(|s: Seal| s@) =~= v@.map_values(|s: Seal| s@));
    }
    out
}

pub fn copy_saps(v: &Vec<crate::prefix::SelfAddressingPrefix>) -> (r: Vec<
    crate::prefix::SelfAddressingPrefix,
>)
    ensures
        r@.map_values(|d: crate::prefix::SelfAddressingPrefix| d@) == v@.map_values(
            |d: crate::prefix::SelfAddressingPrefix| d@,
        ),
{
    let mut out: Vec<crate::prefix::SelfAddressingPrefix> = Vec::new();
    let mut k: usize = 0;
    while k < v.len()
        invariant
            0 <= k <= v@.len(),
            out@.len() == k,
            forall|t: int| 0 <= t < k ==> (#[trigger] out@[t])@ == v@[t]@,
        decreases v@.len() - k,
    {
        out.push(copy_sap(&v[k]));
        k = k + 1;
    }
    proof {
        assert(out@.map_values(|d: crate::prefix::SelfAddressingPrefix| d@) =~= v@.map_values(
            |d: crate::prefix::SelfAddressingPrefix| d@,
        ));
    }
    out
}

pub fn copy_data(d: &EventData) -> (r: EventData)
    ensures
        r@ == d@,
{
    match d {
        EventData::Icp(e) => {
            let r = EventData::Icp(
                InceptionEvent {
                    key_config: copy_keyconfig(&e.key_config),
                    witness_config: InceptionWitnessConfig {
                        tally: e.witness_config.tally,
                        initial_witnesses: copy_basics(&e.witness_config.initial_witnesses),
                    },
                    inception_configuration: copy_saps(&e.inception_configuration),
                },
            );
            proof {
                assert(r@ =~~= d@);
            }
            r
        },
        EventData::Rot(e) => {
            let r = EventData::Rot(
                RotationEvent {
                    previous_event_hash: copy_sap(&e.previous_event_hash),
                    key_config: copy_keyconfig(&e.key_config),
                    witness_config: WitnessConfig {
                        tally: e.witness_config.tally,
                        prune: copy_basics(&e.witness_config.prune),
                        graft: copy_basics(&e.witness_config.graft),
                    },
                    data: copy_seals(&e.data),
                },
            );
            proof {
                assert(r@ =~~= d@);
            }
            r
        },
        EventData::Ixn(e) => {
            let r = EventData::Ixn(
                InteractionEvent {
                    previous_event_hash: copy_sap(&e.previous_event_hash),
                    data: copy_seals(&e.data),
                },
            );
            proof {
                assert(r@ =~~= d@);
            }
            r
        },
        EventData::Vrc(e) => {
            let r = EventData::Vrc(
                ReceiptTransferable {
                    receipted_event_digest: copy_sap(&e.receipted_event_digest),
                    validator_location_seal: EventSeal {
                        prefix: copy_id(&e.validator_location_seal.prefix),
                        event_digest: copy_sap(&e.validator_location_seal.event_digest),
                    },
                },
            );
            proof {
                assert(r@ =~~= d@);
            }
            r
        },
    }
}

pub fn copy_event(e: &Event) -> (r: Event)
    ensures
        r@ == e@,
{
    let r = Event { prefix: copy_id(&e.prefix), sn: e.sn, event_data: copy_data(&e.event_data) };
    proof {
        assert(r@ =~~= e@);
    }
    r
}

pub fn copy_message(m: &EventMessage) -> (r: EventMessage)
    ensures
        r@ == m@,
{
    EventMessage { event: copy_event(&m.event), format: SerializationFormats::Json }
}

pub fn copy_signed(m: &SignedEventMessage) -> (r: SignedEventMessage)
    ensures
        r@ == m@,
{
    let r = SignedEventMessage {
        event_message: copy_message(&m.event_message),
        signatures: copy_attsigs(&m.signatures),
    };
    proof {
        assert(r@ =~~= m@);
    }
    r
}

} // verus!

use vstd::prelude::*;
use vstd::slice::slice_to_vec;

use crate::crypto::{blake3_digest, blake3_of, ed25519_verify_ok};
use crate::errors::{Error, SemanticKind};
use crate::event::{
    EventData, KeyConfig, KeyConfigV, SignedEventMessage, SignedEventV,
};
use crate::prefix::{
    basic_text, BasicPrefix, IdPrefV, IdentifierPrefix, SelfAddressingPrefix,
};
use crate::ser::{ser_body, ser_event, serialize_data};

verus! {

// The per-identifier replay state and its single transition function,
// `verify_and_apply`: the heart of the key-event state machine.

/// The replay state of one identifier: what a validator needs in order to
/// check the next event of that identifier.
pub struct IdentifierState {
    pub prefix: IdentifierPrefix,
    pub sn: u64,
    /// The canonical serialization of the most recently applied event.
    pub last: Vec<u8>,
    pub current_keys: KeyConfig,
    pub next_keys_digest: SelfAddressingPrefix,
    pub witnesses: Vec<BasicPrefix>,
    pub tally: u64,
}

#[verifier::ext_equal]
pub ghost struct IdStateV {
    pub prefix: IdPrefV,
    pub sn: u64,
    pub last: Seq<u8>,
    pub current_keys: KeyConfigV,
    pub next_keys_digest: Seq<u8>,
    pub witnesses: Seq<Seq<u8>>,
    pub tally: u64,
}

impl View for IdentifierState {
    type V = IdStateV;

    open spec fn view(&self) -> IdStateV {
        IdStateV {
            prefix: self.prefix@,
            sn: self.sn,
            last: self.last@,
            current_keys: self.current_keys@,
            next_keys_digest: self.next_keys_digest@,
            witnesses: self.witnesses@.map_values(|b: BasicPrefix| b@),
            tally: self.tally,
        }
    }
}

/// The zero value: the state before any inception.
pub open spec fn is_zero(st: IdStateV) -> bool {
    &&& st.prefix == IdPrefV::SelfAddressing(Seq::<u8>::empty())
    &&& st.sn == 0
    &&& st.last.len() == 0
    &&& st.current_keys.threshold == 0
    &&& st.current_keys.public_keys.len() == 0
    &&& st.current_keys.threshold_key_digest.len() == 0
    &&& st.next_keys_digest.len() == 0
    &&& st.witnesses.len() == 0
    &&& st.tally == 0
}

/// What `verify_and_apply` returns, for every state and every signed event:
/// either the next state or the error naming the first violated invariant.
pub open spec fn transition(st: IdStateV, m: SignedEventV) -> Result<IdStateV, Error> {
    match m.event.event_data {
        crate::event::EventDataV::Icp(e) => {
            if !is_zero(st) {
                Err(Error::SemanticError(SemanticKind::AlreadyIncepted))
            } else if m.event.sn != 0 {
                Err(Error::SemanticError(SemanticKind::WrongSn))
            } else if m.event.prefix != IdPrefV::SelfAddressing(
                blake3_of(ser_body(m.event.event_data)),
            ) {
                Err(Error::SemanticError(SemanticKind::WrongEventPrefix))
            } else if e.key_config.public_keys.len() < 1 {
                Err(Error::SemanticError(SemanticKind::MissingKeys))
            } else if !(m.signatures.len() == 1 && m.signatures[0].index == 0) {
                Err(Error::SemanticError(SemanticKind::WrongSignatureCount))
            } else if !ed25519_verify_ok(
                e.key_config.public_keys[0],
                ser_event(m.event),
                m.signatures[0].sig,
            ) {
                Err(Error::CryptoError)
            } else {
                Ok(
                    IdStateV {
                        prefix: m.event.prefix,
                        sn: 0,
                        last: ser_event(m.event),
                        current_keys: e.key_config,
                        next_keys_digest: e.key_config.threshold_key_digest,
                        witnesses: e.witness_config.initial_witnesses,
                        tally: e.witness_config.tally,
                    },
                )
            }
        },
        crate::event::EventDataV::Rot(e) => {
            if is_zero(st) {
                Err(Error::SemanticError(SemanticKind::NotIncepted))
            } else if m.event.prefix != st.prefix {
                Err(Error::SemanticError(SemanticKind::WrongEventPrefix))
            } else if !(st.sn < u64::MAX && m.event.sn == st.sn + 1) {
                Err(Error::SemanticError(SemanticKind::WrongSn))
            } else if e.previous_event_hash != blake3_of(st.last) {
                Err(Error::SemanticError(SemanticKind::WrongPreviousHash))
            } else if e.key_config.public_keys.len() < 1 {
                Err(Error::SemanticError(SemanticKind::MissingKeys))
            } else if blake3_of(basic_text(e.key_config.public_keys[0])) != st.next_keys_digest {
                Err(Error::SemanticError(SemanticKind::PreRotationMismatch))
            } else if !(m.signatures.len() == 1 && m.signatures[0].index == 0) {
                Err(Error::SemanticError(SemanticKind::WrongSignatureCount))
            } else if !ed25519_verify_ok(
                e.key_config.public_keys[0],
                ser_event(m.event),
                m.signatures[0].sig,
            ) {
                Err(Error::CryptoError)
            } else {
                Ok(
                    IdStateV {
                        prefix: st.prefix,
                        sn: m.event.sn,
                        last: ser_event(m.event),
                        current_keys: e.key_config,
                        next_keys_digest: e.key_config.threshold_key_digest,
                        witnesses: st.witnesses,
                        tally: st.tally,
                    },
                )
            }
        },
        crate::event::EventDataV::Ixn(e) => {
            if is_zero(st) {
                Err(Error::SemanticError(SemanticKind::NotIncepted))
            } else if m.event.prefix != st.prefix {
                Err(Error::SemanticError(SemanticKind::WrongEventPrefix))
            } else if !(st.sn < u64::MAX && m.event.sn == st.sn + 1) {
                Err(Error::SemanticError(SemanticKind::WrongSn))
            } else if e.previous_event_hash != blake3_of(st.last) {
                Err(Error::SemanticError(SemanticKind::WrongPreviousHash))
            } else if st.current_keys.public_keys.len() < 1 {
                Err(Error::SemanticError(SemanticKind::MissingKeys))
            } else if !(m.signatures.len() == 1 && m.signatures[0].index == 0) {
                Err(Error::SemanticError(SemanticKind::WrongSignatureCount))
            } else if !ed25519_verify_ok(
                st.current_keys.public_keys[0],
                ser_event(m.event),
                m.signatures[0].sig,
            ) {
                Err(Error::CryptoError)
            } else {
                Ok(IdStateV { sn: m.event.sn, last: ser_event(m.event), ..st })
            }
        },
        crate::event::EventDataV::Vrc(_) => Err(
            Error::SemanticError(SemanticKind::NotAnEstablishmentEvent),
        ),
    }
}

/// Byte-exact comparison.
pub fn eq_bytes(a: &[u8], b: &[u8]) -> (r: bool)
    ensures
        r == (a@ == b@),
{
    if a.len() != b.len() {
        assert(a@ != b@);
        return false;
    }
    let mut k: usize = 0;
    while k < a.len()
        invariant
            0 <= k <= a@.len(),
            a@.len() == b@.len(),
            forall|t: int| 0 <= t < k ==> a@[t] == b@[t],
        decreases a@.len() - k,
    {
        if a[k] != b[k] {
            return false;
        }
        k = k + 1;
    }
    proof {
        assert(a@ =~= b@);
    }
    true
}

/// Structural equality of identifier prefixes.
pub fn id_eq(a: &IdentifierPrefix, b: &IdentifierPrefix) -> (r: bool)
    ensures
        r == (a@ == b@),
{
    match (a, b) {
        (IdentifierPrefix::Basic(x), IdentifierPrefix::Basic(y)) => eq_bytes(
            x.raw.as_slice(),
            y.raw.as_slice(),
        ),
        (IdentifierPrefix::SelfAddressing(x), IdentifierPrefix::SelfAddressing(y)) => eq_bytes(
            x.raw.as_slice(),
            y.raw.as_slice(),
        ),
        _ => false,
    }
}

pub fn copy_bytes(v: &Vec<u8>) -> (r: Vec<u8>)
    ensures
        r@ == v@,
{
    slice_to_vec(v.as_slice())
}

pub fn copy_basic(b: &BasicPrefix) -> (r: BasicPrefix)
    ensures
        r@ == b@,
{
    BasicPrefix { raw: copy_bytes(&b.raw) }
}

pub fn copy_sap(d: &SelfAddressingPrefix) -> (r: SelfAddressingPrefix)
    ensures
        r@ == d@,
{
    SelfAddressingPrefix { raw: copy_bytes(&d.raw) }
}

pub fn copy_id(p: &IdentifierPrefix) -> (r: IdentifierPrefix)
    ensures
        r@ == p@,
{
    match p {
        IdentifierPrefix::Basic(b) => IdentifierPrefix::Basic(copy_basic(b)),
        IdentifierPrefix::SelfAddressing(d) => IdentifierPrefix::SelfAddressing(copy_sap(d)),
    }
}

pub fn copy_basics(v: &Vec<BasicPrefix>) -> (r: Vec<BasicPrefix>)
    ensures
        r@.map_values(|b: BasicPrefix| b@) == v@.map_values(|b: BasicPrefix| b@),
{
    let mut out: Vec<BasicPrefix> = Vec::new();
    let mut k: usize = 0;
    while k < v.len()
        invariant
            0 <= k <= v@.len(),
            out@.len() == k,
            forall|t: int| 0 <= t < k ==> (#[trigger] out@[t])@ == v@[t]@,
        decreases v@.len() - k,
    {
        out.push(copy_basic(&v[k]));
        k = k + 1;
    }
    proof {
        assert(out@.map_values(|b: BasicPrefix| b@) =~= v@.map_values(|b: BasicPrefix| b@));
    }
    out
}

pub fn copy_keyconfig(k: &KeyConfig) -> (r: KeyConfig)
    ensures
        r@ == k@,
{
    let r = KeyConfig {
        threshold: k.threshold,
        public_keys: copy_basics(&k.public_keys),
        threshold_key_digest: copy_sap(&k.threshold_key_digest),
    };
    proof {
        assert(r@ =~~= k@);
    }
    r
}

impl Default for IdentifierState {
    /// The zero state, from before any inception.
    fn default() -> (r: Self)
        ensures
            is_zero(r@),
    {
        let r = IdentifierState {
            prefix: IdentifierPrefix::SelfAddressing(SelfAddressingPrefix { raw: Vec::new() }),
            sn: 0,
            last: Vec::new(),
            current_keys: KeyConfig {
                threshold: 0,
                public_keys: Vec::new(),
                threshold_key_digest: SelfAddressingPrefix { raw: Vec::new() },
            },
            next_keys_digest: SelfAddressingPrefix { raw: Vec::new() },
            witnesses: Vec::new(),
            tally: 0,
        };
        proof {
            assert(r.current_keys@.public_keys =~= Seq::<Seq<u8>>::empty());
            assert(r@.witnesses =~= Seq::<Seq<u8>>::empty());
            assert(r@.prefix == IdPrefV::SelfAddressing(Seq::<u8>::empty()));
        }
        r
    }
}

impl IdentifierState {
    /// Whether this is the zero state.
    pub fn is_zero_state(&self) -> (r: bool)
        ensures
            r == is_zero(self@),
    {
        let zero_pref = match &self.prefix {
            IdentifierPrefix::SelfAddressing(d) => d.raw.len() == 0,
            IdentifierPrefix::Basic(_) => false,
        };
        proof {
            if zero_pref {
                assert(self.prefix@ == IdPrefV::SelfAddressing(Seq::<u8>::empty())) by {
                    match self.prefix {
                        IdentifierPrefix::SelfAddressing(ref d) => {
                            assert(d.raw@ =~= Seq::<u8>::empty());
                        },
                        IdentifierPrefix::Basic(_) => {},
                    }
                }
            }
        }
        zero_pref && self.sn == 0 && self.last.len() == 0 && self.current_keys.threshold == 0
            && self.current_keys.public_keys.len() == 0
            && self.current_keys.threshold_key_digest.raw.len() == 0
            && self.next_keys_digest.raw.len() == 0 && self.witnesses.len() == 0 && self.tally
            == 0
    }

    /// A deep copy, field for field.
    pub fn duplicate(&self) -> (r: Self)
        ensures
            r@ == self@,
    {
        let r = IdentifierState {
            prefix: copy_id(&self.prefix),
            sn: self.sn,
            last: copy_bytes(&self.last),
            current_keys: copy_keyconfig(&self.current_keys),
            next_keys_digest: copy_sap(&self.next_keys_digest),
            witnesses: copy_basics(&self.witnesses),
            tally: self.tally,
        };
        proof {
            assert(r@ =~~= self@);
        }
        r
    }

    /// Validates a signed event against this state and returns the next
    /// state, or the typed error naming the first violated invariant; this
    /// state itself is never changed.
    #[verifier::rlimit(100)]
    pub fn verify_and_apply(&self, msg: &SignedEventMessage) -> (r: Result<
        IdentifierState,
        Error,
    >)
        ensures
            match r {
                Ok(ns) => transition(self@, msg@) == Ok::<IdStateV, Error>(ns@),
                Err(e) => transition(self@, msg@) == Err::<IdStateV, Error>(e),
            },
    {
        let ser = msg.event_message.serialize();
        match &msg.event_message.event.event_data {
            EventData::Icp(e) => {
                if !self.is_zero_state() {
                    return Err(Error::SemanticError(SemanticKind::AlreadyIncepted));
                }
                if msg.event_message.event.sn != 0 {
                    return Err(Error::SemanticError(SemanticKind::WrongSn));
                }
                let body = serialize_data(&msg.event_message.event.event_data);
                let dig = blake3_digest(body.as_slice());
                let pref_ok = match &msg.event_message.event.prefix {
                    IdentifierPrefix::SelfAddressing(p) => eq_bytes(
                        p.raw.as_slice(),
                        dig.as_slice(),
                    ),
                    IdentifierPrefix::Basic(_) => false,
                };
                if !pref_ok {
                    return Err(Error::SemanticError(SemanticKind::WrongEventPrefix));
                }
                if e.key_config.public_keys.len() < 1 {
                    return Err(Error::SemanticError(SemanticKind::MissingKeys));
                }
                if !(msg.signatures.len() == 1 && msg.signatures[0].index == 0) {
                    return Err(Error::SemanticError(SemanticKind::WrongSignatureCount));
                }
                if !e.key_config.public_keys[0].verify(
                    ser.as_slice(),
                    msg.signatures[0].sig.raw.as_slice(),
                ) {
                    return Err(Error::CryptoError);
                }
                let ns = IdentifierState {
                    prefix: copy_id(&msg.event_message.event.prefix),
                    sn: 0,
                    last: ser,
                    current_keys: copy_keyconfig(&e.key_config),
                    next_keys_digest: copy_sap(&e.key_config.threshold_key_digest),
                    witnesses: copy_basics(&e.witness_config.initial_witnesses),
                    tally: e.witness_config.tally,
                };
                proof {
                    assert(transition(self@, msg@) == Ok::<IdStateV, Error>(ns@)) by {
                        assert(ns@ =~~= transition(self@, msg@)->Ok_0);
                    }
                }
                Ok(ns)
            },
            EventData::Rot(e) => {
                if self.is_zero_state() {
                    return Err(Error::SemanticError(SemanticKind::NotIncepted));
                }
                if !id_eq(&msg.event_message.event.prefix, &self.prefix) {
                    return Err(Error::SemanticError(SemanticKind::WrongEventPrefix));
                }
                if !(self.sn < u64::MAX && msg.event_message.event.sn == self.sn + 1) {
                    return Err(Error::SemanticError(SemanticKind::WrongSn));
                }
                let prev = blake3_digest(self.last.as_slice());
                if !eq_bytes(e.previous_event_hash.raw.as_slice(), prev.as_slice()) {
                    return Err(Error::SemanticError(SemanticKind::WrongPreviousHash));
                }
                if e.key_config.public_keys.len() < 1 {
                    return Err(Error::SemanticError(SemanticKind::MissingKeys));
                }
                let key_text = e.key_config.public_keys[0].to_str();
                let commit = blake3_digest(key_text.as_slice());
                if !eq_bytes(commit.as_slice(), self.next_keys_digest.raw.as_slice()) {
                    return Err(Error::SemanticError(SemanticKind::PreRotationMismatch));
                }
                if !(msg.signatures.len() == 1 && msg.signatures[0].index == 0) {
                    return Err(Error::SemanticError(SemanticKind::WrongSignatureCount));
                }
                if !e.key_config.public_keys[0].verify(
                    ser.as_slice(),
                    msg.signatures[0].sig.raw.as_slice(),
                ) {
                    return Err(Error::CryptoError);
                }
                let ns = IdentifierState {
                    prefix: copy_id(&self.prefix),
                    sn: msg.event_message.event.sn,
                    last: ser,
                    current_keys: copy_keyconfig(&e.key_config),
                    next_keys_digest: copy_sap(&e.key_config.threshold_key_digest),
                    witnesses: copy_basics(&self.witnesses),
                    tally: self.tally,
                };
                proof {
                    assert(transition(self@, msg@) == Ok::<IdStateV, Error>(ns@)) by {
                        assert(ns@ =~~= transition(self@, msg@)->Ok_0);
                    }
                }
                Ok(ns)
            },
            EventData::Ixn(e) => {
                if self.is_zero_state() {
                    return Err(Error::SemanticError(SemanticKind::NotIncepted));
                }
                if !id_eq(&msg.event_message.event.prefix, &self.prefix) {
                    return Err(Error::SemanticError(SemanticKind::WrongEventPrefix));
                }
                if !(self.sn < u64::MAX && msg.event_message.event.sn == self.sn + 1) {
                    return Err(Error::SemanticError(SemanticKind::WrongSn));
                }
                let prev = blake3_digest(self.last.as_slice());
                if !eq_bytes(e.previous_event_hash.raw.as_slice(), prev.as_slice()) {
                    return Err(Error::SemanticError(SemanticKind::WrongPreviousHash));
                }
                if self.current_keys.public_keys.len() < 1 {
                    return Err(Error::SemanticError(SemanticKind::MissingKeys));
                }
                if !(msg.signatures.len() == 1 && msg.signatures[0].index == 0) {
                    return Err(Error::SemanticError(SemanticKind::WrongSignatureCount));
                }
                if !self.current_keys.public_keys[0].verify(
                    ser.as_slice(),
                    msg.signatures[0].sig.raw.as_slice(),
                ) {
                    return Err(Error::CryptoError);
                }
                let ns = IdentifierState {
                    prefix: copy_id(&self.prefix),
                    sn: msg.event_message.event.sn,
                    last: ser,
                    current_keys: copy_keyconfig(&self.current_keys),
                    next_keys_digest: copy_sap(&self.next_keys_digest),
                    witnesses: copy_basics(&self.witnesses),
                    tally: self.tally,
                };
                proof {
                    assert(transition(self@, msg@) == Ok::<IdStateV, Error>(ns@)) by {
                        assert(ns@ =~~= transition(self@, msg@)->Ok_0);
                    }
                }
                Ok(ns)
            },
            EventData::Vrc(_) => Err(Error::SemanticError(SemanticKind::NotAnEstablishmentEvent)),
        }
    }
}

} // verus!

use vstd::prelude::*;

use crate::crypto::{blake3_of, ed25519_sig_of};
use crate::errors::Error;
use crate::event::{
    EventData, EventDataV, EventSealV, EventV, ReceiptTransferableV, SignedEventMessage,
    SignedEventV,
};
use crate::log_state::{ingest, wf_log, LogState, LogV};
use crate::parse::{p_signed, signed_message};
use crate::prefix::AttSigV;
use crate::ser::{ser_event, ser_signed};
use crate::state::{transition, IdStateV, IdentifierState};

verus! {

// One agent's side of the peer exchange: its own log plus a mirror of the
// remote identifier's state, and the dispatch over incoming signed events.

/// The receipt this agent issues for event `e`, as a mathematical value: its
/// fields and signature are functions of the log and the receipted event.
pub open spec fn rct_view(l: LogV, e: EventV) -> SignedEventV {
    SignedEventV {
        event: EventV {
            prefix: e.prefix,
            sn: e.sn,
            event_data: EventDataV::Vrc(
                ReceiptTransferableV {
                    receipted_event_digest: blake3_of(ser_event(e)),
                    validator_location_seal: EventSealV {
                        prefix: l.state.prefix,
                        event_digest: blake3_of(l.state.last),
                    },
                },
            ),
        },
        signatures: seq![AttSigV { index: 0u8, sig: ed25519_sig_of(l.keypair.1, ser_event(e)) }],
    }
}

pub struct KeriInstance {
    /// This agent's own log.
    pub log: LogState,
    /// The mirror of the remote identifier's state.
    pub state: IdentifierState,
}

impl KeriInstance {
    pub fn new(log: LogState, state: IdentifierState) -> (r: Self)
        ensures
            r.log == log,
            r.state == state,
    {
        KeriInstance { log, state }
    }

    /// Handles one incoming wire message, as the accept loop does: a receipt
    /// is ingested into our log; an inception establishes the remote mirror
    /// and is answered with our latest event (the log's last, as the wire
    /// formula has it) followed by our receipt; a rotation or interaction
    /// advances the mirror and is answered with our receipt alone. A message
    /// that does not parse, or an event that does not verify, changes nothing
    /// and is answered with empty bytes; an accepted event is always
    /// answered.
    #[verifier::rlimit(100)]
    pub fn parse_event(&mut self, event: &[u8]) -> (r: Vec<u8>)
        requires
            wf_log(old(self).log@),
        ensures
            wf_log(final(self).log@),
            final(self).log@.log == old(self).log@.log,
            final(self).log@.keypair == old(self).log@.keypair,
            final(self).log@.next_keypair == old(self).log@.next_keypair,
            final(self).log@.state == old(self).log@.state,
            ({
                let pr = p_signed(event@, 0);
                let covers = match pr {
                    Some(x) => x.1 == event@.len(),
                    None => false,
                };
                if !covers {
                    final(self).log@ == old(self).log@ && final(self).state@ == old(self).state@
                        && r@ == Seq::<u8>::empty()
                } else {
                    let m = pr->Some_0.0;
                    match m.event.event_data {
                        EventDataV::Vrc(_) => final(self).log@ == ingest(
                            old(self).log@,
                            old(self).state@,
                            m,
                        ).1 && final(self).state@ == old(self).state@ && r@ == Seq::<u8>::empty(),
                        _ => match transition(old(self).state@, m) {
                            Ok(ns) => final(self).state@ == ns && final(self).log@ == old(
                                self,
                            ).log@ && (if m.event.event_data is Icp {
                                r@ == ser_signed(
                                    old(self).log@.log[old(self).log@.log.len() - 1],
                                ) + ser_signed(rct_view(old(self).log@, m.event))
                            } else {
                                r@ == ser_signed(rct_view(old(self).log@, m.event))
                            }),
                            Err(_) => final(self).log@ == old(self).log@ && final(self).state@
                                == old(self).state@ && r@ == Seq::<u8>::empty(),
                        },
                    }
                }
            }),
    {
        let msg = match signed_message(event) {
            Ok(m) => m,
            Err(_) => {
                return Vec::new();
            },
        };
        match &msg.event_message.event.event_data {
            EventData::Vrc(_) => {
                let _ = self.log.add_sig(&self.state, msg);
                Vec::new()
            },
            EventData::Icp(_) => {
                let ns = match self.state.verify_and_apply(&msg) {
                    Ok(ns) => ns,
                    Err(_) => {
                        return Vec::new();
                    },
                };
                self.state = ns;
                let receipt = match self.log.make_rct(&msg.event_message) {
                    Ok(rc) => rc,
                    Err(_) => {
                        proof {
                            assert(false);
                        }
                        return Vec::new();
                    },
                };
                let last_idx = self.log.log.len() - 1;
                let last = &self.log.log[last_idx];
                proof {
                    assert(wf_log(self.log@));
                    let lv = self.log@.log[last_idx as int];
                    assert(crate::event::wf_signed(lv));
                    assert(lv.signatures.len() == last.signatures@.len());
                    assert forall|k: int|
                        0 <= k < last.signatures@.len() implies (
                    #[trigger] last.signatures@[k]).index < 64 by {
                        assert(crate::prefix::attsig_wf(lv.signatures[k]));
                        assert(lv.signatures[k] == last.signatures@[k]@);
                    }
                }
                let mut out = last.serialize();
                proof {
                    assert(receipt@.signatures.len() == 1);
                    assert(receipt@.signatures[0].index < 64);
                }
                let mut rb = receipt.serialize();
                out.append(&mut rb);
                proof {
                    assert(receipt@ =~~= rct_view(self.log@, msg@.event));
                }
                out
            },
            _ => {
                let ns = match self.state.verify_and_apply(&msg) {
                    Ok(ns) => ns,
                    Err(_) => {
                        return Vec::new();
                    },
                };
                self.state = ns;
                let receipt = match self.log.make_rct(&msg.event_message) {
                    Ok(rc) => rc,
                    Err(_) => {
                        proof {
                            assert(false);
                        }
                        return Vec::new();
                    },
                };
                proof {
                    assert(receipt@.signatures.len() == 1);
                    assert(receipt@.signatures[0].index < 64);
                }
                let out = receipt.serialize();
                proof {
                    assert(receipt@ =~~= rct_view(self.log@, msg@.event));
                }
                out
            },
        }
    }

    /// Handles one event of a peer's reply on the initiating side: a receipt
    /// is ingested into our log; any other event that verifies advances the
    /// mirror and always yields a fresh receipt to send back. An event that
    /// does not verify changes nothing and yields no receipt.
    pub fn handle_response_event(&mut self, msg: SignedEventMessage) -> (r: Option<
        SignedEventMessage,
    >)
        requires
            wf_log(old(self).log@),
        ensures
            wf_log(final(self).log@),
            final(self).log@.log == old(self).log@.log,
            final(self).log@.state == old(self).log@.state,
            final(self).log@.keypair == old(self).log@.keypair,
            final(self).log@.next_keypair == old(self).log@.next_keypair,
            match msg@.event.event_data {
                EventDataV::Vrc(_) => final(self).log@ == ingest(
                    old(self).log@,
                    old(self).state@,
                    msg@,
                ).1 && final(self).state@ == old(self).state@ && r is None,
                _ => match transition(old(self).state@, msg@) {
                    Ok(ns) => final(self).state@ == ns && final(self).log@ == old(self).log@ && (
                    match r {
                        Some(rc) => rc@ == rct_view(old(self).log@, msg@.event),
                        None => false,
                    }),
                    Err(_) => final(self).log@ == old(self).log@ && final(self).state@ == old(
                        self,
                    ).state@ && r is None,
                },
            },
    {
        match &msg.event_message.event.event_data {
            EventData::Vrc(_) => {
                let _ = self.log.add_sig(&self.state, msg);
                None
            },
            _ => {
                let ns = match self.state.verify_and_apply(&msg) {
                    Ok(ns) => ns,
                    Err(_) => {
                        return None;
                    },
                };
                self.state = ns;
                let receipt = match self.log.make_rct(&msg.event_message) {
                    Ok(rc) => rc,
                    Err(_) => {
                        proof {
                            assert(false);
                        }
                        return None;
                    },
                };
                proof {
                    assert(receipt@ =~~= rct_view(self.log@, msg@.event));
                }
                Some(receipt)
            },
        }
    }
}

} // verus!

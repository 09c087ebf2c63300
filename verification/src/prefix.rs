use vstd::prelude::*;

use crate::base64::{
    b64_char, b64_char_e, b64_dec, b64_enc, b64_pull, b64_push, lemma_b64_dec_enc,
    lemma_b64_enc_len, lemma_b64_round_trip,
};
use crate::crypto::{blake3_of, blake3_digest, ed25519_verify, ed25519_verify_ok};
use crate::errors::Error;

verus! {

// Derivation prefixes: tagged byte strings whose textual form is the tag
// followed by the unpadded base64url payload. The tags are one or two
// characters, chosen so that the whole text has a length divisible by four:
//   D  + 43 chars   Ed25519 public key (32 raw bytes)
//   E  + 43 chars   Blake3-256 digest (32 raw bytes)
//   0B + 86 chars   Ed25519-Sha512 signature (64 raw bytes)
//   A  + index char + 86 chars   attached signature (index + 64 raw bytes)

/// A Basic prefix: a raw Ed25519 public key.
pub struct BasicPrefix {
    pub raw: Vec<u8>,
}

/// A SelfAddressing prefix: a raw Blake3-256 digest.
pub struct SelfAddressingPrefix {
    pub raw: Vec<u8>,
}

/// A SelfSigning prefix: a raw Ed25519-Sha512 signature.
pub struct SelfSigningPrefix {
    pub raw: Vec<u8>,
}

/// An attached signature: a signature plus the index of the key it belongs to.
pub struct AttachedSignaturePrefix {
    pub index: u8,
    pub sig: SelfSigningPrefix,
}

/// An identifier: key-derived (Basic) or inception-digest-derived
/// (SelfAddressing). In this core identifiers are always SelfAddressing.
pub enum IdentifierPrefix {
    Basic(BasicPrefix),
    SelfAddressing(SelfAddressingPrefix),
}

/// The mathematical value of an identifier prefix.
#[verifier::ext_equal]
pub enum IdPrefV {
    Basic(Seq<u8>),
    SelfAddressing(Seq<u8>),
}

/// The mathematical value of an attached signature.
#[verifier::ext_equal]
pub ghost struct AttSigV {
    pub index: u8,
    pub sig: Seq<u8>,
}

impl View for BasicPrefix {
    type V = Seq<u8>;

    open spec fn view(&self) -> Seq<u8> {
        self.raw@
    }
}

impl View for SelfAddressingPrefix {
    type V = Seq<u8>;

    open spec fn view(&self) -> Seq<u8> {
        self.raw@
    }
}

impl View for SelfSigningPrefix {
    type V = Seq<u8>;

    open spec fn view(&self) -> Seq<u8> {
        self.raw@
    }
}

impl View for AttachedSignaturePrefix {
    type V = AttSigV;

    open spec fn view(&self) -> AttSigV {
        AttSigV { index: self.index, sig: self.sig.raw@ }
    }
}

impl View for IdentifierPrefix {
    type V = IdPrefV;

    open spec fn view(&self) -> IdPrefV {
        match self {
            IdentifierPrefix::Basic(b) => IdPrefV::Basic(b.raw@),
            IdentifierPrefix::SelfAddressing(d) => IdPrefV::SelfAddressing(d.raw@),
        }
    }
}

/// Well-formedness: the raw field has the length its derivation demands.
pub open spec fn id_wf(p: IdPrefV) -> bool {
    match p {
        IdPrefV::Basic(r) => r.len() == 32,
        IdPrefV::SelfAddressing(r) => r.len() == 32,
    }
}

pub open spec fn attsig_wf(a: AttSigV) -> bool {
    a.index < 64 && a.sig.len() == 64
}

// Textual forms.

pub open spec fn basic_text(raw: Seq<u8>) -> Seq<u8> {
    seq!['D' as u8] + b64_enc(raw)
}

pub open spec fn sap_text(raw: Seq<u8>) -> Seq<u8> {
    seq!['E' as u8] + b64_enc(raw)
}

pub open spec fn ssp_text(raw: Seq<u8>) -> Seq<u8> {
    seq!['0' as u8, 'B' as u8] + b64_enc(raw)
}

pub open spec fn attsig_text(a: AttSigV) -> Seq<u8> {
    seq!['A' as u8, b64_char(a.index)] + b64_enc(a.sig)
}

pub open spec fn id_text(p: IdPrefV) -> Seq<u8> {
    match p {
        IdPrefV::Basic(r) => basic_text(r),
        IdPrefV::SelfAddressing(r) => sap_text(r),
    }
}

/// What `IdentifierPrefix::from_str` returns on any input.
pub open spec fn parse_id_text(s: Seq<u8>) -> Result<IdPrefV, Error> {
    if s.len() == 0 {
        Err(Error::ShortPrefix)
    } else if s[0] == 'D' as u8 {
        if s.len() != 44 {
            Err(Error::ShortPrefix)
        } else {
            match b64_dec(s.skip(1)) {
                Some(raw) => if raw.len() == 32 {
                    Ok(IdPrefV::Basic(raw))
                } else {
                    Err(Error::MalformedPrefix)
                },
                None => Err(Error::MalformedPrefix),
            }
        }
    } else if s[0] == 'E' as u8 {
        if s.len() != 44 {
            Err(Error::ShortPrefix)
        } else {
            match b64_dec(s.skip(1)) {
                Some(raw) => if raw.len() == 32 {
                    Ok(IdPrefV::SelfAddressing(raw))
                } else {
                    Err(Error::MalformedPrefix)
                },
                None => Err(Error::MalformedPrefix),
            }
        }
    } else {
        Err(Error::MalformedPrefix)
    }
}

/// Parsing inverts printing: a well-formed identifier prefix round-trips.
pub proof fn lemma_id_text_round_trip(p: IdPrefV)
    requires
        id_wf(p),
    ensures
        parse_id_text(id_text(p)) == Ok::<IdPrefV, Error>(p),
{
    match p {
        IdPrefV::Basic(r) => {
            lemma_b64_enc_len(r);
            lemma_b64_round_trip(r);
            assert(id_text(p).skip(1) =~= b64_enc(r));
        },
        IdPrefV::SelfAddressing(r) => {
            lemma_b64_enc_len(r);
            lemma_b64_round_trip(r);
            assert(id_text(p).skip(1) =~= b64_enc(r));
        },
    }
}

/// Printing inverts parsing: whatever parses was the canonical text.
pub proof fn lemma_parse_id_text_sound(s: Seq<u8>)
    requires
        parse_id_text(s) is Ok,
    ensures
        id_wf(parse_id_text(s)->Ok_0),
        id_text(parse_id_text(s)->Ok_0) == s,
{
    lemma_b64_dec_enc(s.skip(1));
    let p = parse_id_text(s)->Ok_0;
    assert(id_text(p) =~= s);
}

impl BasicPrefix {
    /// Derivation: wrap a raw Ed25519 public key.
    pub fn derive(key: Vec<u8>) -> (r: Self)
        ensures
            r.raw@ == key@,
    {
        BasicPrefix { raw: key }
    }

    /// The textual form `D<base64url(raw)>`.
    pub fn to_str(&self) -> (r: Vec<u8>)
        ensures
            r@ == basic_text(self.raw@),
    {
        let mut out: Vec<u8> = Vec::new();
        out.push('D' as u8);
        b64_push(&mut out, self.raw.as_slice(), 0);
        proof {
            assert(self.raw@.skip(0) =~= self.raw@);
            assert(out@ =~= basic_text(self.raw@));
        }
        out
    }

    /// Whether `sig` is a valid signature by this key over `data`.
    pub fn verify(&self, data: &[u8], sig: &[u8]) -> (r: bool)
        ensures
            r == ed25519_verify_ok(self.raw@, data@, sig@),
    {
        ed25519_verify(data, sig, self.raw.as_slice())
    }
}

impl SelfAddressingPrefix {
    /// Derivation: the Blake3-256 digest of `data`.
    pub fn derive(data: &[u8]) -> (r: Self)
        ensures
            r.raw@ == blake3_of(data@),
            r.raw@.len() == 32,
    {
        SelfAddressingPrefix { raw: blake3_digest(data) }
    }

    /// The textual form `E<base64url(raw)>`.
    pub fn to_str(&self) -> (r: Vec<u8>)
        ensures
            r@ == sap_text(self.raw@),
    {
        let mut out: Vec<u8> = Vec::new();
        out.push('E' as u8);
        b64_push(&mut out, self.raw.as_slice(), 0);
        proof {
            assert(self.raw@.skip(0) =~= self.raw@);
            assert(out@ =~= sap_text(self.raw@));
        }
        out
    }
}

impl SelfSigningPrefix {
    /// Derivation: wrap a raw Ed25519-Sha512 signature.
    pub fn derive(sig: Vec<u8>) -> (r: Self)
        ensures
            r.raw@ == sig@,
    {
        SelfSigningPrefix { raw: sig }
    }

    /// The textual form `0B<base64url(raw)>`.
    pub fn to_str(&self) -> (r: Vec<u8>)
        ensures
            r@ == ssp_text(self.raw@),
    {
        let mut out: Vec<u8> = Vec::new();
        out.push('0' as u8);
        out.push('B' as u8);
        b64_push(&mut out, self.raw.as_slice(), 0);
        proof {
            assert(self.raw@.skip(0) =~= self.raw@);
            assert(out@ =~= ssp_text(self.raw@));
        }
        out
    }
}

impl AttachedSignaturePrefix {
    /// An attached signature over raw signature bytes at a key index.
    pub fn new(sig: Vec<u8>, index: u8) -> (r: Self)
        ensures
            r.index == index,
            r.sig.raw@ == sig@,
    {
        AttachedSignaturePrefix { index, sig: SelfSigningPrefix { raw: sig } }
    }

    /// The textual form `A<index char><base64url(sig)>`.
    pub fn to_str(&self) -> (r: Vec<u8>)
        requires
            self.index < 64,
        ensures
            r@ == attsig_text(self@),
    {
        let mut out: Vec<u8> = Vec::new();
        out.push('A' as u8);
        out.push(b64_char_e(self.index));
        b64_push(&mut out, self.sig.raw.as_slice(), 0);
        proof {
            assert(self.sig.raw@.skip(0) =~= self.sig.raw@);
            assert(out@ =~= attsig_text(self@));
        }
        out
    }
}

impl IdentifierPrefix {
    /// The textual form of either variant.
    pub fn to_str(&self) -> (r: Vec<u8>)
        ensures
            r@ == id_text(self@),
    {
        match self {
            IdentifierPrefix::Basic(b) => b.to_str(),
            IdentifierPrefix::SelfAddressing(d) => d.to_str(),
        }
    }

    /// Decodes a textual identifier prefix. Unknown tags are `MalformedPrefix`;
    /// a text whose length does not fit its tag is `ShortPrefix`; payloads
    /// outside canonical base64url are `MalformedPrefix`.
    pub fn from_str(s: &[u8]) -> (r: Result<Self, Error>)
        ensures
            match r {
                Ok(p) => parse_id_text(s@) == Ok::<IdPrefV, Error>(p@),
                Err(e) => parse_id_text(s@) == Err::<IdPrefV, Error>(e),
            },
    {
        if s.len() == 0 {
            return Err(Error::ShortPrefix);
        }
        let tag = s[0];
        if tag == 'D' as u8 || tag == 'E' as u8 {
            if s.len() != 44 {
                return Err(Error::ShortPrefix);
            }
            let mut raw: Vec<u8> = Vec::new();
            let ok = b64_pull(&mut raw, s, 1, 44);
            proof {
                assert(s@.subrange(1, 44) =~= s@.skip(1));
            }
            if !ok {
                return Err(Error::MalformedPrefix);
            }
            if raw.len() != 32 {
                return Err(Error::MalformedPrefix);
            }
            if tag == 'D' as u8 {
                Ok(IdentifierPrefix::Basic(BasicPrefix { raw }))
            } else {
                Ok(IdentifierPrefix::SelfAddressing(SelfAddressingPrefix { raw }))
            }
        } else {
            Err(Error::MalformedPrefix)
        }
    }
}

} // verus!

use vstd::prelude::*;

verus! {

/// The protocol invariant that a `SemanticError` reports as violated.
#[derive(Clone, Copy, PartialEq, Eq, Structural, Debug)]
pub enum SemanticKind {
    /// An inception event arrived for an identifier that is already established.
    AlreadyIncepted,
    /// A rotation or interaction event arrived before any inception.
    NotIncepted,
    /// The event's identifier prefix does not match the state it was applied to.
    WrongEventPrefix,
    /// The event's sequence number is not the successor of the current one.
    WrongSn,
    /// The event's previous-event hash does not match the digest of the last event.
    WrongPreviousHash,
    /// The rotation's new key does not match the pre-rotation commitment.
    PreRotationMismatch,
    /// The event does not carry exactly one attached signature at index 0.
    WrongSignatureCount,
    /// The event names no public key to verify against.
    MissingKeys,
    /// A receipt was handed to the identifier-state transition.
    NotAnEstablishmentEvent,
    /// A non-receipt event was handed to receipt ingestion.
    NotAReceipt,
    /// A receipt refers to a sequence number with no logged event.
    IncorrectReceiptSn,
    /// A receipt's prefix, digest or validator seal does not bind to our log.
    IncorrectReceiptBinding,
}

/// Typed errors of the key-event core.
#[derive(Clone, Copy, PartialEq, Eq, Structural, Debug)]
pub enum Error {
    /// Key generation, signing, or signature verification failed.
    CryptoError,
    /// A protocol invariant was violated; the kind names which one.
    SemanticError(SemanticKind),
    /// A textual prefix carries an unknown tag or invalid payload characters.
    MalformedPrefix,
    /// A textual prefix is shorter or longer than its tag demands.
    ShortPrefix,
    /// Input bytes are not a canonical serialization of any event.
    DeserializationError,
}

} // verus!

use vstd::prelude::*;

verus! {

/// Every way a session can end other than cleanly.
#[derive(Debug, Clone, Copy, PartialEq, Eq, Structural)]
pub enum ProtocolError {
    /// A frame announces more bytes than the largest stage allows.
    FrameTooLarge,
    /// The peer closed the channel before a whole frame arrived.
    ShortRead,
    /// A frame carries another protocol version.
    VersionMismatch,
    /// Bytes that do not form a valid frame, envelope or message.
    DecodeError,
    /// A frame whose counter does not exceed the last one accepted.
    ReplayDetected,
    /// A message whose sender or recipient is not the expected one.
    IdentityMismatch,
    /// A message of another stage than the session expects.
    StageMismatch,
    /// Tampered ciphertext, a wrong key or wrong associated data.
    AeadAuthFailed,
    /// A missing or malformed ephemeral public key.
    KeyAgreementFailed,
    /// A message over its stage's size limit.
    SizeViolation,
    /// Too many knocks or too many bytes within the hour.
    RateLimit,
    /// The peer is on the blocklist.
    Blocked,
    /// The policy engine failed or answered nonsense.
    PolicyFailure,
    /// An external deadline fired.
    Timeout,
    /// The 32-bit counter would wrap within the session.
    CounterExhausted,
    /// A stage tag outside the protocol's alphabet.
    UnknownStage,
}

} // verus!

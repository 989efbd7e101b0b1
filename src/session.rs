use vstd::prelude::*;
use crate::bytes::{append_bytes, be32_bytes, be32_value, copy_range, lemma_be32_round_trip, u32_from_be, u32_to_be};
use crate::crypto::{aes256gcm_opened, aes256gcm_sealed, decrypt_message, encrypt_message, nonce_spec, zero_key, zeroize_key, AEAD_MAX_INPUT, AEAD_TAG_LEN};
use crate::error::ProtocolError;
use crate::message::{str_eq, Message, Payload};
use crate::protocol::{aad_spec, build_aad, size_verdict, validate_size, Stage, PROTOCOL_VERSION};

verus! {

/// Bytes in front of an envelope's ciphertext: the counter and the timestamp.
pub const ENVELOPE_HEADER_LEN: usize = 8;

/// A sealed envelope: counter and timestamp as big-endian bytes, then the
/// ciphertext.
pub open spec fn envelope_spec(counter: u32, timestamp: u32, ct: Seq<u8>) -> Seq<u8> {
    be32_bytes(counter) + be32_bytes(timestamp) + ct
}

/// The envelope that seals `plaintext` from `from` to `to`.
pub open spec fn sealed_envelope(
    key: Seq<u8>,
    counter: u32,
    timestamp: u32,
    plaintext: Seq<u8>,
    from: Seq<char>,
    to: Seq<char>,
) -> Seq<u8> {
    envelope_spec(
        counter,
        timestamp,
        aes256gcm_sealed(key, nonce_spec(counter, timestamp), aad_spec(PROTOCOL_VERSION, from, to), plaintext),
    )
}

/// What opening `env` gives when the last accepted counter is `last` and
/// the envelope is expected from `from` to `to`: its counter, timestamp
/// and plaintext.
pub open spec fn open_spec(
    key: Seq<u8>,
    env: Seq<u8>,
    last: u32,
    from: Seq<char>,
    to: Seq<char>,
) -> Result<(u32, u32, Seq<u8>), ProtocolError> {
    if env.len() < ENVELOPE_HEADER_LEN {
        Err(ProtocolError::DecodeError)
    } else {
        let c = be32_value(env.subrange(0, 4)) as u32;
        let t = be32_value(env.subrange(4, 8)) as u32;
        if c <= last {
            Err(ProtocolError::ReplayDetected)
        } else {
            match aes256gcm_opened(
                key,
                nonce_spec(c, t),
                aad_spec(PROTOCOL_VERSION, from, to),
                env.subrange(8, env.len() as int),
            ) {
                Some(p) => Ok((c, t, p)),
                None => Err(ProtocolError::AeadAuthFailed),
            }
        }
    }
}

/// An envelope that opened: its header and the plaintext it sealed.
pub struct Opened {
    pub counter: u32,
    pub timestamp: u32,
    pub plaintext: Vec<u8>,
}

pub fn seal_envelope(
    key: &[u8; 32],
    counter: u32,
    timestamp: u32,
    plaintext: &[u8],
    from: &str,
    to: &str,
) -> (r: Result<Vec<u8>, ProtocolError>)
    ensures
        r is Ok <==> (plaintext@.len() <= AEAD_MAX_INPUT && aad_spec(PROTOCOL_VERSION, from@, to@).len()
            <= AEAD_MAX_INPUT),
        r is Err ==> r == Err::<Vec<u8>, ProtocolError>(ProtocolError::SizeViolation),
        r matches Ok(e) ==> e@ == sealed_envelope(key@, counter, timestamp, plaintext@, from@, to@),
        r matches Ok(e) ==> e@.len() == ENVELOPE_HEADER_LEN + plaintext@.len() + AEAD_TAG_LEN,
        r matches Ok(e) ==> forall|last: u32|
            last < counter ==> #[trigger] open_spec(key@, e@, last, from@, to@) == Ok::<
                (u32, u32, Seq<u8>),
                ProtocolError,
            >((counter, timestamp, plaintext@)),
        r matches Ok(e) ==> forall|last: u32|
            last >= counter ==> #[trigger] open_spec(key@, e@, last, from@, to@) == Err::<
                (u32, u32, Seq<u8>),
                ProtocolError,
            >(ProtocolError::ReplayDetected),
{
    let aad = build_aad(PROTOCOL_VERSION, from, to);
    let ct = encrypt_message(key, counter, timestamp, plaintext, aad.as_slice())?;
    let c = u32_to_be(counter);
    let t = u32_to_be(timestamp);
    let mut env: Vec<u8> = Vec::new();
    append_bytes(&mut env, &c);
    append_bytes(&mut env, &t);
    append_bytes(&mut env, ct.as_slice());
    proof {
        assert(env@ =~= envelope_spec(counter, timestamp, ct@));
        lemma_envelope_header(counter, timestamp, ct@);
    }
    Ok(env)
}

/// The header of an envelope reads back as the counter and timestamp it
/// was built with, and the rest is the ciphertext.
proof fn lemma_envelope_header(counter: u32, timestamp: u32, ct: Seq<u8>)
    ensures
        be32_value(envelope_spec(counter, timestamp, ct).subrange(0, 4)) == counter,
        be32_value(envelope_spec(counter, timestamp, ct).subrange(4, 8)) == timestamp,
        envelope_spec(counter, timestamp, ct).subrange(8, envelope_spec(counter, timestamp, ct).len() as int) == ct,
        envelope_spec(counter, timestamp, ct).len() == ENVELOPE_HEADER_LEN + ct.len(),
{
    let e = envelope_spec(counter, timestamp, ct);
    lemma_be32_round_trip(counter);
    lemma_be32_round_trip(timestamp);
    assert(e.subrange(0, 4) =~= be32_bytes(counter));
    assert(e.subrange(4, 8) =~= be32_bytes(timestamp));
    assert(e.subrange(8, e.len() as int) =~= ct);
}

pub fn open_envelope(
    key: &[u8; 32],
    envelope: &[u8],
    last_counter: u32,
    expected_from: &str,
    expected_to: &str,
) -> (r: Result<Opened, ProtocolError>)
    ensures
        match open_spec(key@, envelope@, last_counter, expected_from@, expected_to@) {
            Ok((c, t, p)) => r matches Ok(o) && o.counter == c && o.timestamp == t && o.plaintext@ == p,
            Err(e) => r matches Err(x) && x == e,
        },
{
    if envelope.len() < ENVELOPE_HEADER_LEN {
        return Err(ProtocolError::DecodeError);
    }
    let counter = u32_from_be(envelope, 0);
    let timestamp = u32_from_be(envelope, 4);
    if counter <= last_counter {
        return Err(ProtocolError::ReplayDetected);
    }
    let ct = copy_range(envelope, ENVELOPE_HEADER_LEN, envelope.len());
    let aad = build_aad(PROTOCOL_VERSION, expected_from, expected_to);
    let plaintext = decrypt_message(key, counter, timestamp, ct.as_slice(), aad.as_slice())?;
    Ok(Opened { counter, timestamp, plaintext })
}

/// Replaying an envelope once its counter has been accepted is refused as a
/// replay, before any decryption.
pub proof fn lemma_replay_rejected(
    key: Seq<u8>,
    counter: u32,
    timestamp: u32,
    ct: Seq<u8>,
    last: u32,
    from: Seq<char>,
    to: Seq<char>,
)
    requires
        counter <= last,
    ensures
        open_spec(key, envelope_spec(counter, timestamp, ct), last, from, to) == Err::<
            (u32, u32, Seq<u8>),
            ProtocolError,
        >(ProtocolError::ReplayDetected),
{
    lemma_envelope_header(counter, timestamp, ct);
}

/// The checks a decoded message passes before it is accepted: it comes from
/// the expected peer to us, its header agrees with the envelope's, its size
/// fits its stage, and its counter is fresh.
pub open spec fn accept_verdict(
    msg: Message,
    counter: u32,
    timestamp: u32,
    plaintext_len: int,
    last: u32,
    remote: Seq<char>,
    local: Seq<char>,
) -> Result<(), ProtocolError> {
    if msg.from@ != remote || msg.to@ != local {
        Err(ProtocolError::IdentityMismatch)
    } else if msg.counter != counter || msg.timestamp != timestamp {
        Err(ProtocolError::DecodeError)
    } else if size_verdict(msg.stage, plaintext_len) is Err {
        size_verdict(msg.stage, plaintext_len)
    } else if counter <= last {
        Err(ProtocolError::ReplayDetected)
    } else {
        Ok(())
    }
}

/// A message whose sender and recipient were swapped is refused as an
/// identity mismatch.
pub proof fn lemma_swapped_identity_rejected(
    msg: Message,
    counter: u32,
    timestamp: u32,
    plaintext_len: int,
    last: u32,
    remote: Seq<char>,
    local: Seq<char>,
)
    requires
        remote != local,
        msg.from@ == local,
        msg.to@ == remote,
    ensures
        accept_verdict(msg, counter, timestamp, plaintext_len, last, remote, local) == Err::<(), ProtocolError>(
            ProtocolError::IdentityMismatch,
        ),
{
}

/// Of two frames accepted one after the other, the later carries the
/// higher counter.
pub proof fn lemma_accepted_counters_increase(
    first: Message,
    first_opened: Opened,
    second: Message,
    second_opened: Opened,
    last: u32,
    remote: Seq<char>,
    local: Seq<char>,
)
    requires
        accept_verdict(first, first_opened.counter, first_opened.timestamp, first_opened.plaintext@.len() as int,
            last, remote, local) is Ok,
        accept_verdict(second, second_opened.counter, second_opened.timestamp,
            second_opened.plaintext@.len() as int, first_opened.counter, remote, local) is Ok,
    ensures
        second.counter > first.counter,
        first.counter > last,
{
}

/// One end of a connection: who talks to whom, under which key, and the
/// highest counter sent or accepted so far.
pub struct Session {
    pub local_id: String,
    pub remote_id: String,
    pub key: [u8; 32],
    pub counter: u32,
}

impl Session {
    /// A session before key agreement: the key is all zeros.
    pub fn new(local_id: String, remote_id: String) -> (r: Session)
        ensures
            r.local_id == local_id,
            r.remote_id == remote_id,
            r.key@ == zero_key(),
            r.counter == 0,
    {
        let key = [0u8; 32];
        assert(key@ =~= zero_key());
        Session { local_id, remote_id, key, counter: 0 }
    }

    /// The next message to send: it takes the next counter.
    pub fn next_message(&mut self, stage: Stage, payload: Payload, timestamp: u32) -> (r: Result<Message, ProtocolError>)
        ensures
            old(self).counter == u32::MAX ==> r == Err::<Message, ProtocolError>(ProtocolError::CounterExhausted)
                && *final(self) == *old(self),
            old(self).counter < u32::MAX ==> (r matches Ok(m) && {
                &&& final(self).counter == old(self).counter + 1
                &&& m.stage == stage.code()
                &&& m.counter == final(self).counter
                &&& m.timestamp == timestamp
                &&& m.from@ == old(self).local_id@
                &&& m.to@ == old(self).remote_id@
                &&& m.payload == payload
                &&& final(self).local_id == old(self).local_id
                &&& final(self).remote_id == old(self).remote_id
                &&& final(self).key == old(self).key
            }),
    {
        if self.counter == u32::MAX {
            return Err(ProtocolError::CounterExhausted);
        }
        self.counter = self.counter + 1;
        Ok(Message {
            stage: stage.to_u8(),
            counter: self.counter,
            timestamp,
            from: self.local_id.clone(),
            to: self.remote_id.clone(),
            payload,
        })
    }

    /// Seals the encoding of `msg` for the peer.
    pub fn seal(&self, msg: &Message, plaintext: &[u8]) -> (r: Result<Vec<u8>, ProtocolError>)
        ensures
            r is Ok <==> (plaintext@.len() <= AEAD_MAX_INPUT && aad_spec(PROTOCOL_VERSION, self.local_id@, self.remote_id@).len()
                <= AEAD_MAX_INPUT),
            r matches Ok(e) ==> e@ == sealed_envelope(self.key@, msg.counter, msg.timestamp, plaintext@, self.local_id@, self.remote_id@),
    {
        seal_envelope(&self.key, msg.counter, msg.timestamp, plaintext, self.local_id.as_str(), self.remote_id.as_str())
    }

    /// Opens an envelope from the peer; nothing is accepted yet.
    pub fn open(&self, envelope: &[u8]) -> (r: Result<Opened, ProtocolError>)
        ensures
            match open_spec(self.key@, envelope@, self.counter, self.remote_id@, self.local_id@) {
                Ok((c, t, p)) => r matches Ok(o) && o.counter == c && o.timestamp == t && o.plaintext@ == p,
                Err(e) => r matches Err(x) && x == e,
            },
    {
        open_envelope(&self.key, envelope, self.counter, self.remote_id.as_str(), self.local_id.as_str())
    }

    /// Accepts the message decoded from an opened envelope; its counter
    /// becomes the last one accepted.
    pub fn accept(&mut self, msg: &Message, opened: &Opened) -> (r: Result<(), ProtocolError>)
        ensures
            r == accept_verdict(*msg, opened.counter, opened.timestamp, opened.plaintext@.len() as int,
                old(self).counter, old(self).remote_id@, old(self).local_id@),
            r is Ok ==> final(self).counter == opened.counter && final(self).counter > old(self).counter,
            r is Err ==> final(self).counter == old(self).counter,
            final(self).key == old(self).key,
            final(self).local_id == old(self).local_id,
            final(self).remote_id == old(self).remote_id,
    {
        if !str_eq(msg.from.as_str(), self.remote_id.as_str()) || !str_eq(msg.to.as_str(), self.local_id.as_str()) {
            return Err(ProtocolError::IdentityMismatch);
        }
        if msg.counter != opened.counter || msg.timestamp != opened.timestamp {
            return Err(ProtocolError::DecodeError);
        }
        validate_size(msg.stage, opened.plaintext.len())?;
        if opened.counter <= self.counter {
            return Err(ProtocolError::ReplayDetected);
        }
        self.counter = opened.counter;
        Ok(())
    }

    /// Accepts a handshake message, which travels unsealed.
    pub fn accept_plain(&mut self, msg: &Message, encoded_len: usize) -> (r: Result<(), ProtocolError>)
        ensures
            r == accept_verdict(*msg, msg.counter, msg.timestamp, encoded_len as int, old(self).counter,
                old(self).remote_id@, old(self).local_id@),
            r is Ok ==> final(self).counter == msg.counter && final(self).counter > old(self).counter,
            r is Err ==> final(self).counter == old(self).counter,
            final(self).key == old(self).key,
            final(self).local_id == old(self).local_id,
            final(self).remote_id == old(self).remote_id,
    {
        if !str_eq(msg.from.as_str(), self.remote_id.as_str()) || !str_eq(msg.to.as_str(), self.local_id.as_str()) {
            return Err(ProtocolError::IdentityMismatch);
        }
        validate_size(msg.stage, encoded_len)?;
        if msg.counter <= self.counter {
            return Err(ProtocolError::ReplayDetected);
        }
        self.counter = msg.counter;
        Ok(())
    }

    /// Ends the session: the key is zeroed.
    pub fn close(&mut self)
        ensures
            final(self).key@ == zero_key(),
            final(self).counter == old(self).counter,
            final(self).local_id == old(self).local_id,
            final(self).remote_id == old(self).remote_id,
    {
        zeroize_key(&mut self.key);
    }
}

} // verus!

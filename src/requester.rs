use vstd::prelude::*;
use crate::crypto::{derive_session_key, session_key_spec, zero_key, zeroize_key, AEAD_MAX_INPUT};
use crate::error::ProtocolError;
use crate::assoc::assoc;
use crate::message::{payload_wf, empty_payload, lookup, payload_get, payload_view, put, u64_or, Message, Payload, Value, ValueView};
use crate::protocol::{aad_spec, Stage, PROTOCOL_VERSION};
use crate::responder::{handshake_key, is_next_message};
use crate::session::{accept_verdict, Opened, Session};

verus! {

/// Where a requester's session stands.
#[derive(Debug, Clone, Copy, PartialEq, Eq, Structural)]
pub enum RequesterState {
    Start,
    AwaitWelcome,
    SendWish,
    AwaitGrant,
    /// Granted: progress updates may come before the gift.
    AwaitGift,
    /// The thank-you that ends the session is due.
    SendThank,
    Done,
}

/// What a requester learns from the responder's answer.
#[derive(Debug, Clone, Copy, PartialEq, Eq, Structural)]
pub enum Answer {
    Accepted,
    Refused,
}

/// What arrives while a requester waits for the gift.
#[derive(Debug, Clone, Copy, PartialEq, Eq, Structural)]
pub enum GiftEvent {
    /// A progress update, in percent.
    Progress(u64),
    Gift,
}

/// The requester's end of one connection.
pub struct Requester {
    pub session: Session,
    pub state: RequesterState,
    pub eph_secret: [u8; 32],
    pub eph_public: [u8; 32],
    /// Whether the session ends on a refusal rather than a gift.
    pub refused: bool,
}

/// The status an answer carries: accepted unless it says 2.
pub open spec fn answer_of(msg: Message) -> Answer {
    if u64_or(msg.field("st"@), 1) as u8 == 2 {
        Answer::Refused
    } else {
        Answer::Accepted
    }
}

/// A knock's field `key`: the caller's own value, else `default`.
pub open spec fn field_or(input: Payload, key: Seq<char>, default: ValueView) -> ValueView {
    match lookup(payload_view(input@), key) {
        Some(v) => v,
        None => default,
    }
}

/// The verdict on a welcome of `len` encoded bytes.
pub open spec fn welcome_verdict(welcome: Message, len: int, last: u32, remote: Seq<char>, local: Seq<char>) -> Result<Answer, ProtocolError> {
    if welcome.stage != Stage::Welcome.code() {
        Err(ProtocolError::StageMismatch)
    } else if accept_verdict(welcome, welcome.counter, welcome.timestamp, len, last, remote, local) is Err {
        Err(accept_verdict(welcome, welcome.counter, welcome.timestamp, len, last, remote, local)->Err_0)
    } else if handshake_key(welcome) is None {
        Err(ProtocolError::KeyAgreementFailed)
    } else {
        Ok(answer_of(welcome))
    }
}

/// The verdict on a grant, once opened and decoded.
pub open spec fn grant_verdict(grant: Message, opened: Opened, last: u32, remote: Seq<char>, local: Seq<char>) -> Result<Answer, ProtocolError> {
    let acc = accept_verdict(grant, opened.counter, opened.timestamp, opened.plaintext@.len() as int, last, remote, local);
    if acc is Err {
        Err(acc->Err_0)
    } else if grant.stage != Stage::Grant.code() {
        Err(ProtocolError::StageMismatch)
    } else {
        Ok(answer_of(grant))
    }
}

/// The verdict on a frame that arrives while the gift is awaited.
pub open spec fn gift_verdict(msg: Message, opened: Opened, last: u32, remote: Seq<char>, local: Seq<char>) -> Result<GiftEvent, ProtocolError> {
    let acc = accept_verdict(msg, opened.counter, opened.timestamp, opened.plaintext@.len() as int, last, remote, local);
    if acc is Err {
        Err(acc->Err_0)
    } else if msg.stage == Stage::Wrap.code() {
        Ok(GiftEvent::Progress(u64_or(msg.field("prog"@), 0)))
    } else if msg.stage == Stage::Gift.code() {
        Ok(GiftEvent::Gift)
    } else {
        Err(ProtocolError::StageMismatch)
    }
}

/// The pairs of a thank-you payload.
pub open spec fn thank_payload(context: u8, understanding: bool, feedback: Option<Seq<char>>) -> Seq<(Seq<char>, ValueView)> {
    let fb = match feedback {
        Some(f) => seq![("fb"@, ValueView::Str(f))],
        None => Seq::empty(),
    };
    let und = if context != 1 {
        seq![("und"@, ValueView::Bool(understanding))]
    } else {
        Seq::empty()
    };
    fb + und + seq![("ctx"@, ValueView::UInt(context as u64))]
}

/// The pairs of a knock payload.
pub open spec fn knock_payload(input: Payload, eph_public: Seq<u8>) -> Seq<(Seq<char>, ValueView)> {
    seq![
        ("eph_key"@, ValueView::Bytes(eph_public)),
        ("c"@, field_or(input, "c"@, ValueView::UInt(1))),
        ("pri"@, field_or(input, "pri"@, ValueView::UInt(2))),
    ] + match lookup(payload_view(input@), "prev"@) {
        Some(v) => seq![("prev"@, v)],
        None => Seq::empty(),
    }
}

/// The thank-you payload: the context, whether the refusal was understood
/// (only after a refusal, context other than 1), and any feedback.
pub fn build_thank_payload(context: u8, understanding: bool, feedback: Option<&str>) -> (r: Payload)
    ensures
        payload_view(r@) == thank_payload(context, understanding, match feedback {
            Some(f) => Some(f@),
            None => None::<Seq<char>>,
        }),
        payload_wf(r),
        lookup(payload_view(r@), "ctx"@) == Some(ValueView::UInt(context as u64)),
        lookup(payload_view(r@), "und"@) == if context != 1 {
            Some(ValueView::Bool(understanding))
        } else {
            None::<ValueView>
        },
        lookup(payload_view(r@), "fb"@) == match feedback {
            Some(f) => Some(ValueView::Str(f@)),
            None => None::<ValueView>,
        },
{
    let mut payload = empty_payload();
    proof {
        reveal_strlit("ctx");
        reveal_strlit("und");
        reveal_strlit("fb");
        assert("ctx"@.len() == 3);
        assert("und"@.len() == 3);
        assert("fb"@.len() == 2);
        assert("ctx"@[0] == 'c' && "und"@[0] == 'u');
        assert("ctx"@ != "und"@);
        reveal_with_fuel(assoc, 4);
    }
    put(&mut payload, "ctx", Value::UInt(context as u64));
    if context != 1 {
        put(&mut payload, "und", Value::Bool(understanding));
    }
    match feedback {
        Some(fb) => put(&mut payload, "fb", Value::Str(fb.to_owned())),
        None => {},
    }
    assert(payload_view(payload@) =~= thank_payload(context, understanding, match feedback {
        Some(f) => Some(f@),
        None => None::<Seq<char>>,
    }));
    payload
}

impl Requester {
    pub open spec fn closed(&self) -> bool {
        &&& self.state == RequesterState::Done
        &&& self.session.key@ == zero_key()
        &&& self.eph_secret@ == zero_key()
    }

    /// A requester from `my_id` to `peer_id` with a fresh ephemeral key pair.
    pub fn new(my_id: String, peer_id: String, eph_secret: [u8; 32], eph_public: [u8; 32]) -> (r: Requester)
        ensures
            r.state == RequesterState::Start,
            r.session.local_id == my_id,
            r.session.remote_id == peer_id,
            r.session.counter == 0,
            r.session.key@ == zero_key(),
            r.eph_secret == eph_secret,
            r.eph_public == eph_public,
            !r.refused,
    {
        Requester { session: Session::new(my_id, peer_id), state: RequesterState::Start, eph_secret, eph_public, refused: false }
    }

    /// Ends the session: the session key and the ephemeral secret are zeroed.
    pub fn close(&mut self)
        ensures
            final(self).closed(),
            final(self).session.counter == old(self).session.counter,
            final(self).session.local_id == old(self).session.local_id,
            final(self).session.remote_id == old(self).session.remote_id,
            final(self).refused == old(self).refused,
    {
        self.session.close();
        zeroize_key(&mut self.eph_secret);
        self.state = RequesterState::Done;
    }

    /// The knock that opens the session, with counter 1. It carries the
    /// caller's capability code, priority and prior context where the
    /// caller's payload has them (capability 1 and priority 2 otherwise),
    /// and the ephemeral public key.
    pub fn knock(&mut self, input: &Payload, timestamp: u32) -> (r: Message)
        requires
            old(self).state == RequesterState::Start,
            old(self).session.counter == 0,
        ensures
            is_next_message(Ok::<Message, ProtocolError>(r), old(self).session, Stage::Knock, timestamp),
            r.counter == 1,
            r.field("eph_key"@) == Some(ValueView::Bytes(old(self).eph_public@)),
            r.field("c"@) == Some(field_or(*input, "c"@, ValueView::UInt(1))),
            r.field("pri"@) == Some(field_or(*input, "pri"@, ValueView::UInt(2))),
            r.field("prev"@) == lookup(payload_view(input@), "prev"@),
            payload_view(r.payload@) == knock_payload(*input, old(self).eph_public@),
            payload_wf(r.payload),
            final(self).state == RequesterState::AwaitWelcome,
            final(self).session.counter == 1,
            final(self).session.key == old(self).session.key,
            final(self).session.local_id == old(self).session.local_id,
            final(self).session.remote_id == old(self).session.remote_id,
            final(self).eph_secret == old(self).eph_secret,
            final(self).eph_public == old(self).eph_public,
            final(self).refused == old(self).refused,
    {
        proof {
            reveal_strlit("prev");
            reveal_strlit("pri");
            reveal_strlit("c");
            reveal_strlit("eph_key");
            assert("prev"@.len() == 4);
            assert("pri"@.len() == 3);
            assert("c"@.len() == 1);
            assert("eph_key"@.len() == 7);
            reveal_with_fuel(assoc, 5);
        }
        let mut payload = empty_payload();
        match payload_get(input, "prev") {
            Some(v) => put(&mut payload, "prev", v.copy()),
            None => {},
        }
        match payload_get(input, "pri") {
            Some(v) => put(&mut payload, "pri", v.copy()),
            None => put(&mut payload, "pri", Value::UInt(2)),
        }
        match payload_get(input, "c") {
            Some(v) => put(&mut payload, "c", v.copy()),
            None => put(&mut payload, "c", Value::UInt(1)),
        }
        let eph = crate::bytes::copy_range(&self.eph_public, 0, 32);
        assert(eph@ =~= self.eph_public@);
        put(&mut payload, "eph_key", Value::Bytes(eph));
        assert(payload_view(payload@) =~= knock_payload(*input, self.eph_public@));
        let m = self.session.next_message(Stage::Knock, payload, timestamp).unwrap();
        self.state = RequesterState::AwaitWelcome;
        m
    }

    /// Takes the welcome: binds the session key, the requester first, and
    /// reads the answer to the knock. A refusal leaves only the thank-you
    /// to send.
    pub fn on_welcome(&mut self, welcome: &Message, encoded_len: usize) -> (r: Result<Answer, ProtocolError>)
        requires
            old(self).state == RequesterState::AwaitWelcome,
        ensures
            r == welcome_verdict(*welcome, encoded_len as int, old(self).session.counter,
                old(self).session.remote_id@, old(self).session.local_id@),
            r is Ok ==> {
                &&& final(self).session.key@ == session_key_spec(old(self).eph_secret@,
                    handshake_key(*welcome)->Some_0, old(self).session.local_id@, old(self).session.remote_id@)
                &&& final(self).session.counter == welcome.counter
                &&& final(self).session.local_id == old(self).session.local_id
                &&& final(self).session.remote_id == old(self).session.remote_id
                &&& final(self).eph_secret@ == zero_key()
                &&& final(self).refused == (r == Ok::<Answer, ProtocolError>(Answer::Refused))
                &&& final(self).state == if final(self).refused {
                    RequesterState::SendThank
                } else {
                    RequesterState::SendWish
                }
            },
            r is Err ==> final(self).closed(),
    {
        if welcome.stage != Stage::Welcome.to_u8() {
            self.close();
            return Err(ProtocolError::StageMismatch);
        }
        if let Err(e) = self.session.accept_plain(welcome, encoded_len) {
            self.close();
            return Err(e);
        }
        let peer_key = match payload_get(&welcome.payload, "eph_key") {
            Some(v) => v.to_key_bytes(),
            None => Err(ProtocolError::KeyAgreementFailed),
        };
        let peer_key = match peer_key {
            Ok(k) => k,
            Err(e) => {
                self.close();
                return Err(e);
            },
        };
        match derive_session_key(&self.eph_secret, &peer_key, self.session.local_id.as_str(), self.session.remote_id.as_str()) {
            Ok(k) => {
                self.session.key = k;
            },
            Err(e) => {
                self.close();
                return Err(e);
            },
        }
        zeroize_key(&mut self.eph_secret);
        let status = match payload_get(&welcome.payload, "st") {
            Some(v) => match v.as_u64() {
                Some(n) => n,
                None => 1,
            },
            None => 1,
        };
        if status as u8 == 2 {
            self.refused = true;
            self.state = RequesterState::SendThank;
            Ok(Answer::Refused)
        } else {
            self.refused = false;
            self.state = RequesterState::SendWish;
            Ok(Answer::Accepted)
        }
    }

    /// The wish, carrying the caller's payload as it is.
    pub fn wish(&mut self, payload: Payload, timestamp: u32) -> (r: Result<Message, ProtocolError>)
        requires
            old(self).state == RequesterState::SendWish,
        ensures
            old(self).session.counter == u32::MAX ==> r == Err::<Message, ProtocolError>(ProtocolError::CounterExhausted)
                && final(self).closed(),
            old(self).session.counter < u32::MAX ==> {
                &&& is_next_message(r, old(self).session, Stage::Wish, timestamp)
                &&& r->Ok_0.payload == payload
                &&& final(self).state == RequesterState::AwaitGrant
                &&& final(self).session.key == old(self).session.key
                &&& final(self).session.counter == old(self).session.counter + 1
            },
    {
        match self.session.next_message(Stage::Wish, payload, timestamp) {
            Ok(m) => {
                self.state = RequesterState::AwaitGrant;
                Ok(m)
            },
            Err(e) => {
                self.close();
                Err(e)
            },
        }
    }

    /// Takes the grant decoded from an opened envelope.
    pub fn on_grant(&mut self, grant: &Message, opened: &Opened) -> (r: Result<Answer, ProtocolError>)
        requires
            old(self).state == RequesterState::AwaitGrant,
        ensures
            r == grant_verdict(*grant, *opened, old(self).session.counter, old(self).session.remote_id@,
                old(self).session.local_id@),
            r is Ok ==> {
                &&& final(self).session.counter == opened.counter
                &&& final(self).session.key == old(self).session.key
                &&& final(self).refused == (r == Ok::<Answer, ProtocolError>(Answer::Refused))
                &&& final(self).state == if final(self).refused {
                    RequesterState::SendThank
                } else {
                    RequesterState::AwaitGift
                }
            },
            r is Err ==> final(self).closed(),
    {
        if let Err(e) = self.session.accept(grant, opened) {
            self.close();
            return Err(e);
        }
        if grant.stage != Stage::Grant.to_u8() {
            self.close();
            return Err(ProtocolError::StageMismatch);
        }
        let status = match payload_get(&grant.payload, "st") {
            Some(v) => match v.as_u64() {
                Some(n) => n,
                None => 1,
            },
            None => 1,
        };
        if status as u8 == 2 {
            self.refused = true;
            self.state = RequesterState::SendThank;
            Ok(Answer::Refused)
        } else {
            self.refused = false;
            self.state = RequesterState::AwaitGift;
            Ok(Answer::Accepted)
        }
    }

    /// Takes a frame that arrives while the gift is awaited: a progress
    /// update keeps waiting, the gift leaves the thank-you to send.
    pub fn on_gift(&mut self, msg: &Message, opened: &Opened) -> (r: Result<GiftEvent, ProtocolError>)
        requires
            old(self).state == RequesterState::AwaitGift,
            !old(self).refused,
        ensures
            r == gift_verdict(*msg, *opened, old(self).session.counter, old(self).session.remote_id@,
                old(self).session.local_id@),
            r is Ok ==> {
                &&& final(self).session.counter == opened.counter
                &&& final(self).session.key == old(self).session.key
                &&& final(self).refused == old(self).refused
                &&& final(self).state == if r == Ok::<GiftEvent, ProtocolError>(GiftEvent::Gift) {
                    RequesterState::SendThank
                } else {
                    RequesterState::AwaitGift
                }
            },
            r is Err ==> final(self).closed(),
    {
        if let Err(e) = self.session.accept(msg, opened) {
            self.close();
            return Err(e);
        }
        if msg.stage == Stage::Wrap.to_u8() {
            let progress = match payload_get(&msg.payload, "prog") {
                Some(v) => match v.as_u64() {
                    Some(n) => n,
                    None => 0,
                },
                None => 0,
            };
            Ok(GiftEvent::Progress(progress))
        } else if msg.stage == Stage::Gift.to_u8() {
            self.state = RequesterState::SendThank;
            Ok(GiftEvent::Gift)
        } else {
            self.close();
            Err(ProtocolError::StageMismatch)
        }
    }

    /// The thank-you that ends the session: after a refusal it says the
    /// refusal was understood, after a gift it thanks.
    pub fn thank(&mut self, timestamp: u32) -> (r: Result<Message, ProtocolError>)
        requires
            old(self).state == RequesterState::SendThank,
        ensures
            old(self).session.counter == u32::MAX ==> r == Err::<Message, ProtocolError>(ProtocolError::CounterExhausted)
                && final(self).closed(),
            old(self).session.counter < u32::MAX ==> {
                &&& is_next_message(r, old(self).session, Stage::Thank, timestamp)
                &&& r->Ok_0.field("ctx"@) == Some(ValueView::UInt(if old(self).refused { 2 } else { 1 }))
                &&& r->Ok_0.field("und"@) == if old(self).refused {
                    Some(ValueView::Bool(true))
                } else {
                    None::<ValueView>
                }
                &&& r->Ok_0.field("fb"@) == if old(self).refused {
                    None::<ValueView>
                } else {
                    Some(ValueView::Str("Thank you!"@))
                }
                &&& final(self).state == RequesterState::Done
                &&& final(self).session.key == old(self).session.key
                &&& final(self).session.counter == old(self).session.counter + 1
            },
    {
        let payload = if self.refused {
            build_thank_payload(2, true, None)
        } else {
            build_thank_payload(1, false, Some("Thank you!"))
        };
        match self.session.next_message(Stage::Thank, payload, timestamp) {
            Ok(m) => {
                self.state = RequesterState::Done;
                Ok(m)
            },
            Err(e) => {
                self.close();
                Err(e)
            },
        }
    }

    /// Seals the encoding of `msg` for the responder. Once the thank-you is
    /// sealed the session is over, and the key is zeroed.
    pub fn seal(&mut self, msg: &Message, plaintext: &[u8]) -> (r: Result<Vec<u8>, ProtocolError>)
        ensures
            r is Ok <==> (plaintext@.len() <= AEAD_MAX_INPUT && aad_spec(PROTOCOL_VERSION,
                old(self).session.local_id@, old(self).session.remote_id@).len() <= AEAD_MAX_INPUT),
            r matches Ok(e) ==> e@ == crate::session::sealed_envelope(old(self).session.key@, msg.counter,
                msg.timestamp, plaintext@, old(self).session.local_id@, old(self).session.remote_id@),
            r is Err ==> final(self).closed(),
            old(self).state == RequesterState::Done ==> final(self).session.key@ == zero_key(),
            r is Ok && old(self).state != RequesterState::Done ==> *final(self) == *old(self),
    {
        match self.session.seal(msg, plaintext) {
            Ok(e) => {
                if self.state == RequesterState::Done {
                    self.close();
                }
                Ok(e)
            },
            Err(e) => {
                self.close();
                Err(e)
            },
        }
    }
}

} // verus!

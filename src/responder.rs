use vstd::prelude::*;
use crate::abuse::{after_violation, charge, BlockReason, Blocklist, RateLimiter, MAX_BYTES_PER_HOUR, MAX_KNOCKS_PER_HOUR};
use crate::crypto::{derive_session_key, session_key_spec, zero_key, zeroize_key, AEAD_TAG_LEN};
use crate::error::ProtocolError;
use crate::assoc::assoc;
use crate::bytes::append_bytes;
use crate::message::{decimal, empty_payload, payload_get, payload_view, payload_wf, push_decimal, put, Message, Value, ValueView};
use crate::policy::PolicyDecision;
use crate::protocol::Stage;
use crate::session::{accept_verdict, Opened, Session, ENVELOPE_HEADER_LEN};

verus! {

/// Where a responder's session stands.
#[derive(Debug, Clone, Copy, PartialEq, Eq, Structural)]
pub enum ResponderState {
    /// Nothing received yet.
    AwaitKnock,
    /// Knock accepted and key agreed; the policy engine decides on it.
    DecideKnock,
    AwaitWish,
    /// Wish accepted; the policy engine decides on it.
    DecideWish,
    /// Wish granted; the result is being produced.
    Working,
    AwaitThank,
    /// Refused; the requester's thank-you may still be drained.
    Draining,
    Done,
}

/// The responder's end of one connection.
pub struct Responder {
    pub session: Session,
    pub state: ResponderState,
    pub eph_secret: [u8; 32],
    pub eph_public: [u8; 32],
}

/// The outcome of abuse control on a parsed knock of `len` encoded bytes.
pub open spec fn knock_admission(bl: Blocklist, rl: RateLimiter, knock: Message, len: u64, now: u64) -> Result<(), ProtocolError> {
    if knock.stage != Stage::Knock.code() {
        Err(ProtocolError::StageMismatch)
    } else if bl.blocked(knock.from@) {
        Err(ProtocolError::Blocked)
    } else if charge(rl.knock_window(knock.from@), now, 1, MAX_KNOCKS_PER_HOUR).0 is Err {
        Err(ProtocolError::RateLimit)
    } else if charge(rl.byte_window(knock.from@), now, len, MAX_BYTES_PER_HOUR).0 is Err {
        Err(ProtocolError::RateLimit)
    } else {
        Ok(())
    }
}

/// Abuse control on a parsed knock, before any cryptographic work: the
/// blocklist first, then the knock rate, then the byte rate counting the
/// knock itself. A refusal by either rate counts a violation.
pub fn admit_knock(
    knock: &Message,
    encoded_len: usize,
    blocklist: &mut Blocklist,
    limiter: &mut RateLimiter,
    now: u64,
) -> (r: Result<(), ProtocolError>)
    requires
        old(blocklist).wf(),
        old(limiter).wf(),
    ensures
        final(blocklist).wf(),
        final(limiter).wf(),
        r == knock_admission(*old(blocklist), *old(limiter), *knock, encoded_len as u64, now),
        ({
            let from = knock.from@;
            let passes = knock.stage == Stage::Knock.code() && !old(blocklist).blocked(from);
            let k = charge(old(limiter).knock_window(from), now, 1, MAX_KNOCKS_PER_HOUR);
            let b = charge(old(limiter).byte_window(from), now, encoded_len as u64, MAX_BYTES_PER_HOUR);
            &&& final(limiter).knock_window(from) == if passes {
                Some(k.1)
            } else {
                old(limiter).knock_window(from)
            }
            &&& final(limiter).byte_window(from) == if passes && k.0 is Ok {
                Some(b.1)
            } else {
                old(limiter).byte_window(from)
            }
            &&& final(blocklist).state_of(from) == if r == Err::<(), ProtocolError>(ProtocolError::RateLimit) {
                Some(after_violation(old(blocklist).state_of(from), BlockReason::RateLimitViolations, now))
            } else {
                old(blocklist).state_of(from)
            }
        }),
        forall|a: Seq<char>|
            a != knock.from@ ==> #[trigger] final(blocklist).state_of(a) == old(blocklist).state_of(a),
        forall|a: Seq<char>|
            a != knock.from@ ==> #[trigger] final(limiter).knock_window(a) == old(limiter).knock_window(a),
        forall|a: Seq<char>|
            a != knock.from@ ==> #[trigger] final(limiter).byte_window(a) == old(limiter).byte_window(a),
{
    if knock.stage != Stage::Knock.to_u8() {
        return Err(ProtocolError::StageMismatch);
    }
    let peer = knock.from.as_str();
    if blocklist.is_blocked(peer) {
        return Err(ProtocolError::Blocked);
    }
    if let Err(e) = limiter.check_knock(peer, now) {
        blocklist.add_violation(peer, BlockReason::RateLimitViolations, now);
        return Err(e);
    }
    if let Err(e) = limiter.check_bytes(peer, encoded_len as u64, now) {
        blocklist.add_violation(peer, BlockReason::RateLimitViolations, now);
        return Err(e);
    }
    Ok(())
}

/// The ephemeral key a handshake message carries, if it carries one.
pub open spec fn handshake_key(msg: Message) -> Option<Seq<u8>> {
    match msg.field("eph_key"@) {
        Some(v) => v.as_key(),
        None => None,
    }
}

/// The verdict on a knock of `len` encoded bytes addressed to `local`.
pub open spec fn knock_verdict(knock: Message, len: int, local: Seq<char>) -> Result<(), ProtocolError> {
    if knock.stage != Stage::Knock.code() {
        Err(ProtocolError::StageMismatch)
    } else if accept_verdict(knock, knock.counter, knock.timestamp, len, 0, knock.from@, local) is Err {
        accept_verdict(knock, knock.counter, knock.timestamp, len, 0, knock.from@, local)
    } else if handshake_key(knock) is None {
        Err(ProtocolError::KeyAgreementFailed)
    } else {
        Ok(())
    }
}

/// Text of an accepting welcome.
pub open spec fn welcome_text() -> Seq<char> {
    "Welcome! Please share your wish."@
}

/// `reason`, or `default` where there is none.
pub open spec fn reason_or(reason: Option<String>, default: Seq<char>) -> Seq<char> {
    match reason {
        Some(s) => s@,
        None => default,
    }
}

/// `Ok(m)` with `m` a message of `stage` from the session's counter after
/// `old`, sent at `timestamp` from the local to the remote agent.
pub open spec fn is_next_message(r: Result<Message, ProtocolError>, old: Session, stage: Stage, timestamp: u32) -> bool {
    r matches Ok(m) && {
        &&& m.stage == stage.code()
        &&& m.counter == old.counter + 1
        &&& m.timestamp == timestamp
        &&& m.from@ == old.local_id@
        &&& m.to@ == old.remote_id@
    }
}

/// The stage a responder expects in its next sealed frame.
pub open spec fn expected_stage(state: ResponderState) -> Stage {
    if state == ResponderState::AwaitWish {
        Stage::Wish
    } else {
        Stage::Thank
    }
}

/// The verdict on a wish, once opened and decoded: it is accepted by the
/// session, its envelope fits the sender's byte allowance, and it is a wish.
pub open spec fn wish_verdict(
    wish: Message,
    opened: Opened,
    last: u32,
    remote: Seq<char>,
    local: Seq<char>,
    rl: RateLimiter,
    envelope_len: u64,
    now: u64,
) -> Result<(), ProtocolError> {
    let acc = accept_verdict(wish, opened.counter, opened.timestamp, opened.plaintext@.len() as int, last, remote, local);
    if acc is Err {
        acc
    } else if charge(rl.byte_window(remote), now, envelope_len, MAX_BYTES_PER_HOUR).0 is Err {
        Err(ProtocolError::RateLimit)
    } else if wish.stage != Stage::Wish.code() {
        Err(ProtocolError::StageMismatch)
    } else {
        Ok(())
    }
}

/// The meta data of a gift: the execution time in seconds, as JSON.
pub open spec fn gift_meta(exec_secs: u64) -> Seq<u8> {
    vstd::utf8::encode_utf8("{\"exec_t\":"@) + decimal(exec_secs as nat) + vstd::utf8::encode_utf8("}"@)
}

/// The payload of a welcome.
pub open spec fn welcome_payload(eph_public: Seq<u8>, decision: PolicyDecision) -> Seq<(Seq<char>, ValueView)> {
    if decision.accept {
        seq![("eph_key"@, ValueView::Bytes(eph_public)), ("st"@, ValueView::UInt(1)),
            ("msg"@, ValueView::Str(welcome_text()))]
    } else {
        seq![("eph_key"@, ValueView::Bytes(eph_public)), ("st"@, ValueView::UInt(2)),
            ("r"@, ValueView::Str(reason_or(decision.reason, "busy"@)))]
    }
}

/// The payload of a grant.
pub open spec fn grant_payload(decision: PolicyDecision) -> Seq<(Seq<char>, ValueView)> {
    if decision.accept {
        seq![("st"@, ValueView::UInt(1)), ("est_t"@, ValueView::UInt(
            match decision.estimated_time { Some(t) => t, None => 60 }))]
    } else {
        seq![("st"@, ValueView::UInt(2)), ("r"@, ValueView::Str(reason_or(decision.reason, "excessive_request"@)))]
    }
}

/// The payload of a gift.
pub open spec fn gift_payload(result: ValueView, exec_secs: u64) -> Seq<(Seq<char>, ValueView)> {
    seq![("ok"@, ValueView::Bool(true)), ("res"@, result), ("meta"@, ValueView::Json(gift_meta(exec_secs)))]
}

/// The payload keys are distinct, as their lengths and first letters show.
pub proof fn lemma_payload_keys()
    ensures
        "eph_key"@.len() == 7,
        "st"@.len() == 2,
        "msg"@.len() == 3,
        "r"@.len() == 1,
        "est_t"@.len() == 5,
        "ok"@.len() == 2,
        "res"@.len() == 3,
        "meta"@.len() == 4,
        "ok"@[0] == 'o',
        "st"@[0] == 's',
        "res"@[0] == 'r',
        "msg"@[0] == 'm',
{
    reveal_strlit("eph_key");
    reveal_strlit("st");
    reveal_strlit("msg");
    reveal_strlit("r");
    reveal_strlit("est_t");
    reveal_strlit("ok");
    reveal_strlit("res");
    reveal_strlit("meta");
}

impl Responder {
    pub open spec fn closed(&self) -> bool {
        &&& self.state == ResponderState::Done
        &&& self.session.key@ == zero_key()
        &&& self.eph_secret@ == zero_key()
    }

    /// A responder for `my_id` with a fresh ephemeral key pair.
    pub fn new(my_id: String, eph_secret: [u8; 32], eph_public: [u8; 32]) -> (r: Responder)
        ensures
            r.state == ResponderState::AwaitKnock,
            r.session.local_id == my_id,
            r.session.counter == 0,
            r.session.key@ == zero_key(),
            r.eph_secret == eph_secret,
            r.eph_public == eph_public,
    {
        Responder { session: Session::new(my_id, String::new()), state: ResponderState::AwaitKnock, eph_secret, eph_public }
    }

    /// Ends the session: the session key and the ephemeral secret are zeroed.
    pub fn close(&mut self)
        ensures
            final(self).closed(),
            final(self).session.counter == old(self).session.counter,
            final(self).session.local_id == old(self).session.local_id,
            final(self).session.remote_id == old(self).session.remote_id,
    {
        self.session.close();
        zeroize_key(&mut self.eph_secret);
        self.state = ResponderState::Done;
    }

    /// Takes a knock that passed abuse control: binds the session to its
    /// sender and derives the session key, the requester first.
    pub fn on_knock(&mut self, knock: &Message, encoded_len: usize) -> (r: Result<(), ProtocolError>)
        requires
            old(self).state == ResponderState::AwaitKnock,
            old(self).session.counter == 0,
        ensures
            r == knock_verdict(*knock, encoded_len as int, old(self).session.local_id@),
            r is Ok ==> {
                &&& final(self).state == ResponderState::DecideKnock
                &&& final(self).session.local_id == old(self).session.local_id
                &&& final(self).session.remote_id@ == knock.from@
                &&& final(self).session.counter == knock.counter
                &&& final(self).session.key@ == session_key_spec(old(self).eph_secret@,
                    handshake_key(*knock)->Some_0, knock.from@, old(self).session.local_id@)
                &&& final(self).eph_secret@ == zero_key()
                &&& final(self).eph_public == old(self).eph_public
            },
            r is Err ==> final(self).closed(),
    {
        if knock.stage != Stage::Knock.to_u8() {
            self.close();
            return Err(ProtocolError::StageMismatch);
        }
        self.session.remote_id = knock.from.clone();
        if let Err(e) = self.session.accept_plain(knock, encoded_len) {
            self.close();
            return Err(e);
        }
        let peer_key = match payload_get(&knock.payload, "eph_key") {
            Some(v) => v.to_key_bytes(),
            None => Err(ProtocolError::KeyAgreementFailed),
        };
        let peer_key = match peer_key {
            Ok(k) => k,
            Err(e) => {
                self.close();
                return Err(e);
            },
        };
        match derive_session_key(&self.eph_secret, &peer_key, knock.from.as_str(), self.session.local_id.as_str()) {
            Ok(k) => {
                self.session.key = k;
            },
            Err(e) => {
                self.close();
                return Err(e);
            },
        }
        zeroize_key(&mut self.eph_secret);
        self.state = ResponderState::DecideKnock;
        Ok(())
    }

    /// The welcome that carries the policy engine's decision on the knock.
    pub fn welcome(&mut self, decision: &PolicyDecision, timestamp: u32) -> (r: Result<Message, ProtocolError>)
        requires
            old(self).state == ResponderState::DecideKnock,
        ensures
            old(self).session.counter == u32::MAX ==> r == Err::<Message, ProtocolError>(ProtocolError::CounterExhausted)
                && final(self).closed(),
            old(self).session.counter < u32::MAX ==> {
                &&& is_next_message(r, old(self).session, Stage::Welcome, timestamp)
                &&& payload_view(r->Ok_0.payload@) == welcome_payload(old(self).eph_public@, *decision)
                &&& payload_wf(r->Ok_0.payload)
                &&& r->Ok_0.field("eph_key"@) == Some(ValueView::Bytes(old(self).eph_public@))
                &&& r->Ok_0.field("st"@) == Some(ValueView::UInt(if decision.accept { 1 } else { 2 }))
                &&& decision.accept ==> r->Ok_0.field("msg"@) == Some(ValueView::Str(welcome_text()))
                &&& !decision.accept ==> r->Ok_0.field("r"@) == Some(ValueView::Str(reason_or(decision.reason, "busy"@)))
                &&& final(self).state == if decision.accept {
                    ResponderState::AwaitWish
                } else {
                    ResponderState::Draining
                }
                &&& final(self).session.key == old(self).session.key
                &&& final(self).session.counter == old(self).session.counter + 1
            },
    {
        proof {
            lemma_payload_keys();
            reveal_with_fuel(assoc, 4);
        }
        let mut payload = empty_payload();
        if decision.accept {
            put(&mut payload, "msg", Value::Str("Welcome! Please share your wish.".to_owned()));
            put(&mut payload, "st", Value::UInt(1));
        } else {
            let reason = match &decision.reason {
                Some(s) => s.clone(),
                None => "busy".to_owned(),
            };
            put(&mut payload, "r", Value::Str(reason));
            put(&mut payload, "st", Value::UInt(2));
        }
        let eph = crate::bytes::copy_range(&self.eph_public, 0, 32);
        assert(eph@ =~= self.eph_public@);
        put(&mut payload, "eph_key", Value::Bytes(eph));
        assert(payload_view(payload@) =~= welcome_payload(self.eph_public@, *decision));
        match self.session.next_message(Stage::Welcome, payload, timestamp) {
            Ok(m) => {
                self.state = if decision.accept {
                    ResponderState::AwaitWish
                } else {
                    ResponderState::Draining
                };
                Ok(m)
            },
            Err(e) => {
                self.close();
                Err(e)
            },
        }
    }


    /// Checks the size of a sealed frame before any decryption: its
    /// plaintext may not pass the expected stage's limit. An oversized frame
    /// counts a size violation against the peer and ends the session.
    pub fn check_sealed_size(&mut self, envelope_len: usize, blocklist: &mut Blocklist, now: u64) -> (r: Result<(), ProtocolError>)
        requires
            old(self).state == ResponderState::AwaitWish || old(self).state == ResponderState::AwaitThank
                || old(self).state == ResponderState::Draining,
            old(blocklist).wf(),
        ensures
            final(blocklist).wf(),
            envelope_len <= ENVELOPE_HEADER_LEN + AEAD_TAG_LEN + expected_stage(old(self).state).limit() ==> {
                &&& r is Ok
                &&& *final(self) == *old(self)
                &&& *final(blocklist) == *old(blocklist)
            },
            envelope_len > ENVELOPE_HEADER_LEN + AEAD_TAG_LEN + expected_stage(old(self).state).limit() ==> {
                &&& r == Err::<(), ProtocolError>(ProtocolError::SizeViolation)
                &&& final(self).closed()
                &&& forall|a: Seq<char>| #[trigger] final(blocklist).state_of(a) == if a == old(self).session.remote_id@ {
                    Some(after_violation(old(blocklist).state_of(a), BlockReason::SizeViolations, now))
                } else {
                    old(blocklist).state_of(a)
                }
            },
    {
        let stage = if self.state == ResponderState::AwaitWish {
            Stage::Wish
        } else {
            Stage::Thank
        };
        if envelope_len > ENVELOPE_HEADER_LEN + AEAD_TAG_LEN + stage.max_size() {
            blocklist.add_violation(self.session.remote_id.as_str(), BlockReason::SizeViolations, now);
            self.close();
            return Err(ProtocolError::SizeViolation);
        }
        Ok(())
    }

    /// Takes the wish decoded from an opened envelope of `envelope_len`
    /// bytes. A refusal by the byte rate counts a violation.
    pub fn on_wish(
        &mut self,
        wish: &Message,
        opened: &Opened,
        envelope_len: usize,
        blocklist: &mut Blocklist,
        limiter: &mut RateLimiter,
        now: u64,
    ) -> (r: Result<(), ProtocolError>)
        requires
            old(self).state == ResponderState::AwaitWish,
            old(blocklist).wf(),
            old(limiter).wf(),
        ensures
            final(blocklist).wf(),
            final(limiter).wf(),
            r == wish_verdict(*wish, *opened, old(self).session.counter, old(self).session.remote_id@,
                old(self).session.local_id@, *old(limiter), envelope_len as u64, now),
            r is Ok ==> {
                &&& final(self).state == ResponderState::DecideWish
                &&& final(self).session.counter == opened.counter
                &&& final(self).session.key == old(self).session.key
                &&& final(self).session.local_id == old(self).session.local_id
                &&& final(self).session.remote_id == old(self).session.remote_id
            },
            r is Err ==> final(self).closed(),
            r == Err::<(), ProtocolError>(ProtocolError::RateLimit) ==> final(blocklist).state_of(old(self).session.remote_id@)
                == Some(after_violation(old(blocklist).state_of(old(self).session.remote_id@), BlockReason::RateLimitViolations, now)),
            r != Err::<(), ProtocolError>(ProtocolError::RateLimit) ==> *final(blocklist) == *old(blocklist),
            forall|a: Seq<char>|
                a != old(self).session.remote_id@ ==> #[trigger] final(blocklist).state_of(a) == old(blocklist).state_of(a),
    {
        if let Err(e) = self.session.accept(wish, opened) {
            self.close();
            return Err(e);
        }
        if let Err(e) = limiter.check_bytes(self.session.remote_id.as_str(), envelope_len as u64, now) {
            blocklist.add_violation(self.session.remote_id.as_str(), BlockReason::RateLimitViolations, now);
            self.close();
            return Err(e);
        }
        if wish.stage != Stage::Wish.to_u8() {
            self.close();
            return Err(ProtocolError::StageMismatch);
        }
        self.state = ResponderState::DecideWish;
        Ok(())
    }

    /// The grant that carries the policy engine's decision on the wish.
    pub fn grant(&mut self, decision: &PolicyDecision, timestamp: u32) -> (r: Result<Message, ProtocolError>)
        requires
            old(self).state == ResponderState::DecideWish,
        ensures
            old(self).session.counter == u32::MAX ==> r == Err::<Message, ProtocolError>(ProtocolError::CounterExhausted)
                && final(self).closed(),
            old(self).session.counter < u32::MAX ==> {
                &&& is_next_message(r, old(self).session, Stage::Grant, timestamp)
                &&& payload_view(r->Ok_0.payload@) == grant_payload(*decision)
                &&& payload_wf(r->Ok_0.payload)
                &&& r->Ok_0.field("st"@) == Some(ValueView::UInt(if decision.accept { 1 } else { 2 }))
                &&& final(self).state == if decision.accept {
                    ResponderState::Working
                } else {
                    ResponderState::Draining
                }
                &&& final(self).session.key == old(self).session.key
                &&& final(self).session.counter == old(self).session.counter + 1
            },
    {
        proof {
            lemma_payload_keys();
            reveal_with_fuel(assoc, 4);
        }
        let mut payload = empty_payload();
        if decision.accept {
            let est = match decision.estimated_time {
                Some(t) => t,
                None => 60,
            };
            put(&mut payload, "est_t", Value::UInt(est));
            put(&mut payload, "st", Value::UInt(1));
        } else {
            let reason = match &decision.reason {
                Some(s) => s.clone(),
                None => "excessive_request".to_owned(),
            };
            put(&mut payload, "r", Value::Str(reason));
            put(&mut payload, "st", Value::UInt(2));
        }
        assert(payload_view(payload@) =~= grant_payload(*decision));
        match self.session.next_message(Stage::Grant, payload, timestamp) {
            Ok(m) => {
                self.state = if decision.accept {
                    ResponderState::Working
                } else {
                    ResponderState::Draining
                };
                Ok(m)
            },
            Err(e) => {
                self.close();
                Err(e)
            },
        }
    }

    /// The gift that carries the result and the execution time in seconds.
    pub fn gift(&mut self, result: Value, exec_secs: u64, timestamp: u32) -> (r: Result<Message, ProtocolError>)
        requires
            old(self).state == ResponderState::Working,
        ensures
            old(self).session.counter == u32::MAX ==> r == Err::<Message, ProtocolError>(ProtocolError::CounterExhausted)
                && final(self).closed(),
            old(self).session.counter < u32::MAX ==> {
                &&& is_next_message(r, old(self).session, Stage::Gift, timestamp)
                &&& payload_view(r->Ok_0.payload@) == gift_payload(result@, exec_secs)
                &&& payload_wf(r->Ok_0.payload)
                &&& r->Ok_0.field("ok"@) == Some(ValueView::Bool(true))
                &&& r->Ok_0.field("res"@) == Some(result@)
                &&& r->Ok_0.field("meta"@) == Some(ValueView::Json(gift_meta(exec_secs)))
                &&& final(self).state == ResponderState::AwaitThank
                &&& final(self).session.key == old(self).session.key
                &&& final(self).session.counter == old(self).session.counter + 1
            },
    {
        proof {
            lemma_payload_keys();
            reveal_with_fuel(assoc, 4);
        }
        let ghost res = result@;
        let mut meta: Vec<u8> = Vec::new();
        append_bytes(&mut meta, "{\"exec_t\":".as_bytes());
        push_decimal(&mut meta, exec_secs);
        append_bytes(&mut meta, "}".as_bytes());
        assert(meta@ =~= gift_meta(exec_secs));
        let mut payload = empty_payload();
        put(&mut payload, "meta", Value::Json(meta));
        put(&mut payload, "res", result);
        put(&mut payload, "ok", Value::Bool(true));
        assert(payload_view(payload@) =~= gift_payload(res, exec_secs));
        match self.session.next_message(Stage::Gift, payload, timestamp) {
            Ok(m) => {
                self.state = ResponderState::AwaitThank;
                Ok(m)
            },
            Err(e) => {
                self.close();
                Err(e)
            },
        }
    }


    /// Takes the thank-you that ends the session, or the frame drained after
    /// a refusal. Its bytes count against the sender's allowance; a refusal
    /// there counts a violation. The session is closed either way; on
    /// success the result tells whether the frame was a thank-you.
    pub fn on_thank(
        &mut self,
        thank: &Message,
        opened: &Opened,
        envelope_len: usize,
        blocklist: &mut Blocklist,
        limiter: &mut RateLimiter,
        now: u64,
    ) -> (r: Result<bool, ProtocolError>)
        requires
            old(self).state == ResponderState::AwaitThank || old(self).state == ResponderState::Draining,
            old(blocklist).wf(),
            old(limiter).wf(),
        ensures
            final(blocklist).wf(),
            final(limiter).wf(),
            ({
                let remote = old(self).session.remote_id@;
                let acc = accept_verdict(*thank, opened.counter, opened.timestamp, opened.plaintext@.len() as int,
                    old(self).session.counter, remote, old(self).session.local_id@);
                let b = charge(old(limiter).byte_window(remote), now, envelope_len as u64, MAX_BYTES_PER_HOUR);
                &&& acc is Err ==> r == Err::<bool, ProtocolError>(acc->Err_0) && *final(limiter) == *old(limiter)
                    && *final(blocklist) == *old(blocklist)
                &&& acc is Ok ==> final(limiter).byte_window(remote) == Some(b.1)
                &&& acc is Ok && b.0 is Err ==> r == Err::<bool, ProtocolError>(ProtocolError::RateLimit)
                    && final(blocklist).state_of(remote) == Some(after_violation(old(blocklist).state_of(remote),
                    BlockReason::RateLimitViolations, now))
                &&& acc is Ok && b.0 is Ok ==> r == Ok::<bool, ProtocolError>(thank.stage == Stage::Thank.code())
                    && *final(blocklist) == *old(blocklist)
            }),
            final(self).closed(),
            forall|a: Seq<char>|
                a != old(self).session.remote_id@ ==> #[trigger] final(limiter).byte_window(a) == old(limiter).byte_window(a),
            forall|a: Seq<char>|
                a != old(self).session.remote_id@ ==> #[trigger] final(blocklist).state_of(a) == old(blocklist).state_of(a),
    {
        if let Err(e) = self.session.accept(thank, opened) {
            self.close();
            return Err(e);
        }
        if let Err(e) = limiter.check_bytes(self.session.remote_id.as_str(), envelope_len as u64, now) {
            blocklist.add_violation(self.session.remote_id.as_str(), BlockReason::RateLimitViolations, now);
            self.close();
            return Err(e);
        }
        self.close();
        Ok(thank.stage == Stage::Thank.to_u8())
    }
}

} // verus!

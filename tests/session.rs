use wish_protocol::abuse::{BlockReason, Blocklist, RateLimiter};
use wish_protocol::crypto::{encrypt_message, generate_ephemeral_key};
use wish_protocol::error::ProtocolError;
use wish_protocol::keyring::Keyring;
use wish_protocol::message::{payload_get, str_eq, Message, Value};
use wish_protocol::policy::PolicyDecision;
use wish_protocol::protocol::{build_aad, Stage};
use wish_protocol::requester::{build_thank_payload, Answer, GiftEvent, Requester, RequesterState};
use wish_protocol::responder::{admit_knock, Responder, ResponderState};
use wish_protocol::session::{open_envelope, seal_envelope, Session};

const ALICE: &str = "alice-00000001";
const BOB: &str = "bob-00000002";

/// Stands in for the message codec, which lives outside the library.
fn enc(m: &Message) -> Vec<u8> {
    format!("{:?}", m).into_bytes()
}

fn pairs(items: &[(&str, Value)]) -> Vec<(String, Value)> {
    items.iter().map(|(k, v)| (k.to_string(), v.clone())).collect()
}

fn field<'a>(m: &'a Message, key: &str) -> Option<&'a Value> {
    payload_get(&m.payload, key)
}

fn violations(bl: &Blocklist, agent: &str, reason: BlockReason) -> u16 {
    bl.violation_count(agent, reason)
}

struct Pair {
    req: Requester,
    resp: Responder,
    bl: Blocklist,
    rl: RateLimiter,
}

fn pair() -> Pair {
    let (qs, qp) = generate_ephemeral_key();
    let (rs, rp) = generate_ephemeral_key();
    Pair {
        req: Requester::new(ALICE.to_string(), BOB.to_string(), qs, qp),
        resp: Responder::new(BOB.to_string(), rs, rp),
        bl: Blocklist::new(),
        rl: RateLimiter::new(),
    }
}

fn policy(items: &[(&str, Value)]) -> PolicyDecision {
    PolicyDecision::from_response(&pairs(items))
}

/// Runs the handshake up to the welcome; returns the welcome.
fn handshake(p: &mut Pair, decision: &PolicyDecision) -> Message {
    let knock = p.req.knock(&Vec::new(), 1000);
    let kb = enc(&knock);
    admit_knock(&knock, kb.len(), &mut p.bl, &mut p.rl, 50_000).unwrap();
    p.resp.on_knock(&knock, kb.len()).unwrap();
    let welcome = p.resp.welcome(decision, 1001).unwrap();
    welcome
}

fn accept_all() -> PolicyDecision {
    policy(&[("accept", Value::Bool(true)), ("estimated_time", Value::UInt(3))])
}

#[test]
fn happy_path_session() {
    let mut p = pair();
    let decision = accept_all();
    let mut counters = Vec::new();

    let welcome = handshake(&mut p, &decision);
    counters.push(1u32);
    counters.push(welcome.counter);
    let wb = enc(&welcome);
    assert_eq!(p.req.on_welcome(&welcome, wb.len()), Ok(Answer::Accepted));
    assert_eq!(p.req.session.key, p.resp.session.key);
    assert_ne!(p.req.session.key, [0u8; 32]);
    assert_eq!(p.req.eph_secret, [0u8; 32]);
    assert_eq!(p.resp.eph_secret, [0u8; 32]);

    let wish_payload = pairs(&[("task", Value::Str("echo".to_string())), ("arg", Value::Str("hi".to_string()))]);
    let wish = p.req.wish(wish_payload.clone(), 1002).unwrap();
    assert_eq!(wish.payload, wish_payload);
    counters.push(wish.counter);
    let env = p.req.seal(&wish, &enc(&wish)).unwrap();
    p.resp.check_sealed_size(env.len(), &mut p.bl, 50_001).unwrap();
    let opened = p.resp.session.open(&env).unwrap();
    assert_eq!(opened.plaintext, enc(&wish));
    p.resp.on_wish(&wish, &opened, env.len(), &mut p.bl, &mut p.rl, 50_001).unwrap();
    assert_eq!(p.resp.state, ResponderState::DecideWish);

    let grant = p.resp.grant(&decision, 1003).unwrap();
    counters.push(grant.counter);
    assert_eq!(field(&grant, "st"), Some(&Value::UInt(1)));
    assert_eq!(field(&grant, "est_t"), Some(&Value::UInt(3)));
    let genv = p.resp.session.seal(&grant, &enc(&grant)).unwrap();
    let opened = p.req.session.open(&genv).unwrap();
    assert_eq!(p.req.on_grant(&grant, &opened), Ok(Answer::Accepted));

    let res = Value::Json(b"{\"accept\":true,\"estimated_time\":3}".to_vec());
    let gift = p.resp.gift(res.clone(), 2, 1004).unwrap();
    assert_eq!(field(&gift, "meta"), Some(&Value::Json(b"{\"exec_t\":2}".to_vec())));
    counters.push(gift.counter);
    let genv = p.resp.session.seal(&gift, &enc(&gift)).unwrap();
    let opened = p.req.session.open(&genv).unwrap();
    assert_eq!(p.req.on_gift(&gift, &opened), Ok(GiftEvent::Gift));
    assert_eq!(field(&gift, "ok"), Some(&Value::Bool(true)));
    assert_eq!(field(&gift, "res"), Some(&res));

    let thank = p.req.thank(1005).unwrap();
    counters.push(thank.counter);
    assert_eq!(field(&thank, "ctx"), Some(&Value::UInt(1)));
    assert_eq!(field(&thank, "fb"), Some(&Value::Str("Thank you!".to_string())));
    assert_eq!(field(&thank, "und"), None);
    let tenv = p.req.seal(&thank, &enc(&thank)).unwrap();
    assert_eq!(p.req.session.key, [0u8; 32]);
    assert_eq!(p.req.state, RequesterState::Done);
    p.resp.check_sealed_size(tenv.len(), &mut p.bl, 50_002).unwrap();
    let opened = p.resp.session.open(&tenv).unwrap();
    assert_eq!(p.resp.on_thank(&thank, &opened, tenv.len(), &mut p.bl, &mut p.rl, 50_002), Ok(true));
    assert_eq!(p.resp.session.key, [0u8; 32]);
    assert_eq!(p.resp.state, ResponderState::Done);

    assert_eq!(counters, vec![1, 2, 3, 4, 5, 6]);
}

#[test]
fn refuse_at_knock() {
    let mut p = pair();
    let decision = policy(&[("accept", Value::Bool(false)), ("reason", Value::Str("busy".to_string()))]);
    let welcome = handshake(&mut p, &decision);
    assert_eq!(field(&welcome, "st"), Some(&Value::UInt(2)));
    assert_eq!(field(&welcome, "r"), Some(&Value::Str("busy".to_string())));
    assert_eq!(p.resp.state, ResponderState::Draining);
    let wb = enc(&welcome);
    assert_eq!(p.req.on_welcome(&welcome, wb.len()), Ok(Answer::Refused));
    let thank = p.req.thank(1002).unwrap();
    assert_eq!(field(&thank, "ctx"), Some(&Value::UInt(2)));
    assert_eq!(field(&thank, "und"), Some(&Value::Bool(true)));
    assert_eq!(field(&thank, "fb"), None);
    let tenv = p.req.seal(&thank, &enc(&thank)).unwrap();
    assert_eq!(p.req.session.key, [0u8; 32]);
    let opened = p.resp.session.open(&tenv).unwrap();
    assert_eq!(p.resp.on_thank(&thank, &opened, tenv.len(), &mut p.bl, &mut p.rl, 50_001), Ok(true));
    assert_eq!(p.resp.session.key, [0u8; 32]);
}

#[test]
fn refusal_reason_defaults() {
    let mut p = pair();
    let welcome = handshake(&mut p, &policy(&[("accept", Value::Bool(false))]));
    assert_eq!(field(&welcome, "r"), Some(&Value::Str("busy".to_string())));
}

#[test]
fn refuse_at_wish() {
    let mut p = pair();
    let welcome = handshake(&mut p, &accept_all());
    let wb = enc(&welcome);
    p.req.on_welcome(&welcome, wb.len()).unwrap();
    let wish = p.req.wish(pairs(&[("task", Value::Str("mine".to_string()))]), 1002).unwrap();
    let env = p.req.seal(&wish, &enc(&wish)).unwrap();
    let opened = p.resp.session.open(&env).unwrap();
    p.resp.on_wish(&wish, &opened, env.len(), &mut p.bl, &mut p.rl, 50_001).unwrap();
    let refuse = policy(&[("accept", Value::Bool(false)), ("reason", Value::Str("excessive_request".to_string()))]);
    let grant = p.resp.grant(&refuse, 1003).unwrap();
    assert_eq!(field(&grant, "st"), Some(&Value::UInt(2)));
    assert_eq!(field(&grant, "r"), Some(&Value::Str("excessive_request".to_string())));
    assert_eq!(p.resp.state, ResponderState::Draining);
    let genv = p.resp.session.seal(&grant, &enc(&grant)).unwrap();
    let opened = p.req.session.open(&genv).unwrap();
    assert_eq!(p.req.on_grant(&grant, &opened), Ok(Answer::Refused));
    let thank = p.req.thank(1004).unwrap();
    assert_eq!(field(&thank, "ctx"), Some(&Value::UInt(2)));
}

#[test]
fn replay_attack() {
    let mut p = pair();
    let welcome = handshake(&mut p, &accept_all());
    let wb = enc(&welcome);
    p.req.on_welcome(&welcome, wb.len()).unwrap();
    let wish = p.req.wish(pairs(&[("task", Value::Str("echo".to_string()))]), 1002).unwrap();
    let env = p.req.seal(&wish, &enc(&wish)).unwrap();
    let opened = p.resp.session.open(&env).unwrap();
    p.resp.on_wish(&wish, &opened, env.len(), &mut p.bl, &mut p.rl, 50_001).unwrap();
    // The same envelope again, within the session.
    assert_eq!(p.resp.session.open(&env).err(), Some(ProtocolError::ReplayDetected));

    // The same envelope on a new connection, whose keys are fresh.
    let mut q = pair();
    let welcome = handshake(&mut q, &accept_all());
    let wb = enc(&welcome);
    q.req.on_welcome(&welcome, wb.len()).unwrap();
    assert_eq!(q.resp.session.open(&env).err(), Some(ProtocolError::AeadAuthFailed));
}

#[test]
fn tampered_envelope_fails_authentication() {
    let key = [3u8; 32];
    let env = seal_envelope(&key, 4, 99, b"payload", ALICE, BOB).unwrap();
    assert_eq!(env.len(), 8 + 7 + 16);
    assert_eq!(&env[..8], &[0, 0, 0, 4, 0, 0, 0, 99]);
    let ok = open_envelope(&key, &env, 3, ALICE, BOB).unwrap();
    assert_eq!((ok.counter, ok.timestamp, ok.plaintext), (4, 99, b"payload".to_vec()));
    for i in 8..env.len() {
        let mut bad = env.clone();
        bad[i] ^= 0x80;
        assert_eq!(open_envelope(&key, &bad, 3, ALICE, BOB).err(), Some(ProtocolError::AeadAuthFailed));
    }
    let mut bad = env.clone();
    bad[7] ^= 1;
    assert_eq!(open_envelope(&key, &bad, 3, ALICE, BOB).err(), Some(ProtocolError::AeadAuthFailed));
    // Identities swapped: the associated data differs.
    assert_eq!(open_envelope(&key, &env, 3, BOB, ALICE).err(), Some(ProtocolError::AeadAuthFailed));
    assert_eq!(open_envelope(&key, &env, 4, ALICE, BOB).err(), Some(ProtocolError::ReplayDetected));
    assert_eq!(open_envelope(&key, &env[..7], 0, ALICE, BOB).err(), Some(ProtocolError::DecodeError));
}

#[test]
fn swapped_identities_are_refused() {
    let mut s = Session::new(BOB.to_string(), ALICE.to_string());
    let env = seal_envelope(&s.key, 1, 5, b"x", ALICE, BOB).unwrap();
    let opened = s.open(&env).unwrap();
    let m = Message {
        stage: Stage::Wish.to_u8(),
        counter: 1,
        timestamp: 5,
        from: BOB.to_string(),
        to: ALICE.to_string(),
        payload: Vec::new(),
    };
    assert_eq!(s.accept(&m, &opened), Err(ProtocolError::IdentityMismatch));
    let good = Message { from: ALICE.to_string(), to: BOB.to_string(), ..m.clone() };
    let bad_header = Message { counter: 2, ..good.clone() };
    assert_eq!(s.accept(&bad_header, &opened), Err(ProtocolError::DecodeError));
    assert_eq!(s.accept(&good, &opened), Ok(()));
    assert_eq!(s.counter, 1);
}

#[test]
fn counters_only_grow() {
    let mut s = Session::new(BOB.to_string(), ALICE.to_string());
    let key = s.key;
    let mut last = 0;
    for c in [3u32, 7, 8] {
        let env = seal_envelope(&key, c, 1, b"m", ALICE, BOB).unwrap();
        let opened = s.open(&env).unwrap();
        let m = Message {
            stage: 7,
            counter: c,
            timestamp: 1,
            from: ALICE.to_string(),
            to: BOB.to_string(),
            payload: Vec::new(),
        };
        s.accept(&m, &opened).unwrap();
        assert!(s.counter > last);
        last = s.counter;
    }
    let env = seal_envelope(&key, 8, 1, b"m", ALICE, BOB).unwrap();
    assert_eq!(s.open(&env).err(), Some(ProtocolError::ReplayDetected));
}

#[test]
fn counter_exhaustion_is_refused() {
    let mut s = Session::new(ALICE.to_string(), BOB.to_string());
    s.counter = u32::MAX;
    assert_eq!(s.next_message(Stage::Wish, Vec::new(), 0), Err(ProtocolError::CounterExhausted));
}

#[test]
fn rate_limit_then_block() {
    let mut bl = Blocklist::new();
    let mut rl = RateLimiter::new();
    let (_s, public) = generate_ephemeral_key();
    let knock = Message {
        stage: 1,
        counter: 1,
        timestamp: 0,
        from: "mallory-0000000f".to_string(),
        to: BOB.to_string(),
        payload: pairs(&[("eph_key", Value::Bytes(public.to_vec()))]),
    };
    for _ in 0..100 {
        assert_eq!(admit_knock(&knock, 100, &mut bl, &mut rl, 10_000), Ok(()));
    }
    assert_eq!(admit_knock(&knock, 100, &mut bl, &mut rl, 10_000), Err(ProtocolError::RateLimit));
    assert_eq!(violations(&bl, "mallory-0000000f", BlockReason::RateLimitViolations), 1);
    assert!(!bl.is_blocked("mallory-0000000f"));
    for i in 2..=10u16 {
        assert_eq!(admit_knock(&knock, 100, &mut bl, &mut rl, 10_000), Err(ProtocolError::RateLimit));
        assert_eq!(violations(&bl, "mallory-0000000f", BlockReason::RateLimitViolations), i);
    }
    assert!(bl.is_blocked("mallory-0000000f"));
    assert_eq!(admit_knock(&knock, 100, &mut bl, &mut rl, 10_000), Err(ProtocolError::Blocked));
    // Other agents are unaffected.
    let other = Message { from: "carol-00000003".to_string(), ..knock.clone() };
    assert_eq!(admit_knock(&other, 100, &mut bl, &mut rl, 10_000), Ok(()));
}

#[test]
fn oversize_wish_is_a_size_violation() {
    let mut p = pair();
    let welcome = handshake(&mut p, &accept_all());
    let wb = enc(&welcome);
    p.req.on_welcome(&welcome, wb.len()).unwrap();
    let encoded_len = 200 * 1024 + 1;
    let envelope_len = 8 + encoded_len + 16;
    assert_eq!(p.resp.check_sealed_size(envelope_len, &mut p.bl, 50_001), Err(ProtocolError::SizeViolation));
    assert_eq!(violations(&p.bl, ALICE, BlockReason::SizeViolations), 1);
    assert_eq!(p.bl.entries[0].state.reason, BlockReason::SizeViolations);
    assert_eq!(p.resp.state, ResponderState::Done);
    assert_eq!(p.resp.session.key, [0u8; 32]);

    let mut q = pair();
    let welcome = handshake(&mut q, &accept_all());
    q.req.on_welcome(&welcome, enc(&welcome).len()).unwrap();
    assert_eq!(q.resp.check_sealed_size(envelope_len - 1, &mut q.bl, 50_001), Ok(()));
}

#[test]
fn knock_checks() {
    let mut p = pair();
    let knock = p.req.knock(&Vec::new(), 1);
    let wrong_stage = Message { stage: 3, ..knock.clone() };
    assert_eq!(admit_knock(&wrong_stage, 10, &mut p.bl, &mut p.rl, 1), Err(ProtocolError::StageMismatch));
    let no_key = Message { payload: Vec::new(), ..knock.clone() };
    assert_eq!(p.resp.on_knock(&no_key, 10), Err(ProtocolError::KeyAgreementFailed));
    assert_eq!(p.resp.session.key, [0u8; 32]);
    assert_eq!(p.resp.state, ResponderState::Done);

    let mut q = pair();
    let misaddressed = Message { to: "eve-00000009".to_string(), ..knock.clone() };
    assert_eq!(q.resp.on_knock(&misaddressed, 10), Err(ProtocolError::IdentityMismatch));

    let mut q = pair();
    assert_eq!(q.resp.on_knock(&knock, 2049), Err(ProtocolError::SizeViolation));

    let mut q = pair();
    let short_key = Message { payload: pairs(&[("eph_key", Value::Bytes(vec![1; 31]))]), ..knock.clone() };
    assert_eq!(q.resp.on_knock(&short_key, 10), Err(ProtocolError::KeyAgreementFailed));
}

#[test]
fn knock_payload_defaults_and_overrides() {
    let mut p = pair();
    let knock = p.req.knock(&Vec::new(), 1);
    assert_eq!(knock.counter, 1);
    assert_eq!(knock.stage, 1);
    assert_eq!(field(&knock, "c"), Some(&Value::UInt(1)));
    assert_eq!(field(&knock, "pri"), Some(&Value::UInt(2)));
    assert_eq!(field(&knock, "prev"), None);
    assert_eq!(field(&knock, "eph_key"), Some(&Value::Bytes(p.req.eph_public.to_vec())));

    let mut q = pair();
    let input = pairs(&[("c", Value::UInt(7)), ("prev", Value::Str("ref-1".to_string())), ("task", Value::Null)]);
    let knock = q.req.knock(&input, 1);
    assert_eq!(field(&knock, "c"), Some(&Value::UInt(7)));
    assert_eq!(field(&knock, "pri"), Some(&Value::UInt(2)));
    assert_eq!(field(&knock, "prev"), Some(&Value::Str("ref-1".to_string())));
    assert_eq!(field(&knock, "task"), None);
}

#[test]
fn requester_rejects_bad_welcome() {
    let mut p = pair();
    let welcome = handshake(&mut p, &accept_all());
    let stale = Message { counter: 1, ..welcome.clone() };
    assert_eq!(p.req.on_welcome(&stale, 10), Err(ProtocolError::ReplayDetected));
    assert_eq!(p.req.state, RequesterState::Done);

    let mut q = pair();
    let welcome = handshake(&mut q, &accept_all());
    let wrong = Message { stage: 4, ..welcome.clone() };
    assert_eq!(q.req.on_welcome(&wrong, 10), Err(ProtocolError::StageMismatch));
}

#[test]
fn progress_updates_before_the_gift() {
    let mut p = pair();
    let welcome = handshake(&mut p, &accept_all());
    p.req.on_welcome(&welcome, enc(&welcome).len()).unwrap();
    let wish = p.req.wish(Vec::new(), 2).unwrap();
    let env = p.req.seal(&wish, &enc(&wish)).unwrap();
    let opened = p.resp.session.open(&env).unwrap();
    p.resp.on_wish(&wish, &opened, env.len(), &mut p.bl, &mut p.rl, 50_001).unwrap();
    let grant = p.resp.grant(&accept_all(), 3).unwrap();
    let genv = p.resp.session.seal(&grant, &enc(&grant)).unwrap();
    let opened = p.req.session.open(&genv).unwrap();
    p.req.on_grant(&grant, &opened).unwrap();

    let wrap = p.resp.session.next_message(Stage::Wrap, pairs(&[("prog", Value::UInt(40))]), 4).unwrap();
    let wenv = p.resp.session.seal(&wrap, &enc(&wrap)).unwrap();
    let opened = p.req.session.open(&wenv).unwrap();
    assert_eq!(p.req.on_gift(&wrap, &opened), Ok(GiftEvent::Progress(40)));
    assert_eq!(p.req.state, RequesterState::AwaitGift);

    let odd = p.resp.session.next_message(Stage::Grant, Vec::new(), 5).unwrap();
    let oenv = p.resp.session.seal(&odd, &enc(&odd)).unwrap();
    let opened = p.req.session.open(&oenv).unwrap();
    assert_eq!(p.req.on_gift(&odd, &opened), Err(ProtocolError::StageMismatch));
    assert_eq!(p.req.session.key, [0u8; 32]);
}

#[test]
fn thank_payloads() {
    let p = build_thank_payload(2, true, None);
    assert_eq!(payload_get(&p, "ctx"), Some(&Value::UInt(2)));
    assert_eq!(payload_get(&p, "und"), Some(&Value::Bool(true)));
    let p = build_thank_payload(1, true, Some("nice"));
    assert_eq!(payload_get(&p, "und"), None);
    assert_eq!(payload_get(&p, "fb"), Some(&Value::Str("nice".to_string())));
}

#[test]
fn policy_answers() {
    let d = PolicyDecision::from_response(&Vec::new());
    assert!(d.accept);
    assert_eq!(d.reason, None);
    assert_eq!(d.estimated_time, None);
    let d = policy(&[("accept", Value::Str("no".to_string())), ("estimated_time", Value::Int(-3))]);
    assert!(d.accept);
    assert_eq!(d.estimated_time, None);
    let d = policy(&[("accept", Value::Bool(false)), ("reason", Value::UInt(1))]);
    assert!(!d.accept);
    assert_eq!(d.reason, None);
}

#[test]
fn blocklist_thresholds() {
    let mut bl = Blocklist::new();
    bl.add_violation("a", BlockReason::SizeViolations, 5);
    bl.add_violation("a", BlockReason::SizeViolations, 6);
    assert!(!bl.is_blocked("a"));
    bl.add_violation("a", BlockReason::SizeViolations, 7);
    assert!(bl.is_blocked("a"));
    assert_eq!(bl.entries[0].state.blocked_at, Some(7));
    bl.add_violation("a", BlockReason::Spam, 9);
    assert_eq!(bl.entries[0].state.blocked_at, Some(7));
    assert_eq!(bl.violation_count("a", BlockReason::SizeViolations), 3);
    assert_eq!(bl.violation_count("a", BlockReason::Spam), 1);

    bl.add_violation("b", BlockReason::ManualBlock, 11);
    assert!(bl.is_blocked("b"));
    for _ in 0..4 {
        bl.add_violation("c", BlockReason::MalformedMessages, 1);
    }
    assert!(!bl.is_blocked("c"));
    bl.add_violation("c", BlockReason::MalformedMessages, 2);
    assert!(bl.is_blocked("c"));
    bl.block("d", BlockReason::Spam, 3);
    assert!(bl.is_blocked("d"));
    assert_eq!(bl.violation_count("d", BlockReason::Spam), 1);
    assert!(!bl.is_blocked("e"));
    assert_eq!(bl.violation_count("e", BlockReason::Spam), 0);
    assert_eq!(BlockReason::RateLimitViolations.block_threshold(), 10);
    assert_eq!(BlockReason::SuspiciousBehavior.block_threshold(), 5);
}

#[test]
fn violations_count_per_reason() {
    let mut bl = Blocklist::new();
    bl.add_violation("f", BlockReason::Spam, 1);
    bl.add_violation("f", BlockReason::Spam, 2);
    bl.add_violation("f", BlockReason::SizeViolations, 3);
    assert!(!bl.is_blocked("f"));
    assert_eq!(bl.violation_count("f", BlockReason::Spam), 2);
    assert_eq!(bl.violation_count("f", BlockReason::SizeViolations), 1);
    for t in 4..13u64 {
        bl.add_violation("g", BlockReason::RateLimitViolations, t);
        assert!(!bl.is_blocked("g"));
    }
    bl.add_violation("g", BlockReason::RateLimitViolations, 13);
    assert!(bl.is_blocked("g"));
    assert_eq!(bl.entries[1].state.blocked_at, Some(13));
    assert_eq!(bl.entries.len(), 2);
}

#[test]
fn rate_windows_tumble() {
    let mut rl = RateLimiter::new();
    for _ in 0..100 {
        rl.check_knock("a", 10_000).unwrap();
    }
    assert_eq!(rl.check_knock("a", 10_000), Err(ProtocolError::RateLimit));
    assert_eq!(rl.check_knock("a", 13_600), Err(ProtocolError::RateLimit));
    assert_eq!(rl.check_knock("a", 13_601), Ok(()));
    assert_eq!(rl.check_knock("b", 10_000), Ok(()));

    let mib = 1024 * 1024;
    assert_eq!(rl.check_bytes("a", 100 * mib, 1), Ok(()));
    assert_eq!(rl.check_bytes("a", 1, 1), Err(ProtocolError::RateLimit));
    assert_eq!(rl.check_bytes("b", 100 * mib + 1, 1), Err(ProtocolError::RateLimit));
    assert_eq!(rl.check_bytes("b", u64::MAX, 1), Err(ProtocolError::RateLimit));
    assert_eq!(rl.check_bytes("b", 5, 1), Ok(()));
}

#[test]
fn keyring_add_get_list() {
    let mut k = Keyring::new();
    assert!(k.get("alice").is_none());
    k.add("alice".to_string(), [1; 32], 10);
    k.add("bob".to_string(), [2; 32], 11);
    assert_eq!(k.get("alice"), Some(&[1; 32]));
    k.add("alice".to_string(), [3; 32], 12);
    assert_eq!(k.get("alice"), Some(&[3; 32]));
    assert_eq!(k.get("bob"), Some(&[2; 32]));
    let l = k.list();
    assert_eq!(l.len(), 2);
    assert!(l.iter().any(|e| e.agent_id == "alice" && e.added_at == 12));
}

#[test]
fn values_and_strings() {
    assert!(str_eq("abc", "abc"));
    assert!(!str_eq("abc", "abd"));
    assert!(!str_eq("ab", "abc"));
    assert_eq!(Value::Int(5).as_u64(), Some(5));
    assert_eq!(Value::Int(-5).as_u64(), None);
    assert_eq!(Value::UInt(9).as_u64(), Some(9));
    assert_eq!(Value::Str("x".to_string()).as_str(), Some("x"));
    assert_eq!(Value::Bool(false).as_bool(), Some(false));
    assert_eq!(Value::Bytes(vec![5; 32]).to_key_bytes(), Ok([5; 32]));
    assert_eq!(Value::Bytes(vec![5; 33]).to_key_bytes(), Err(ProtocolError::KeyAgreementFailed));
    assert_eq!(Value::Str("k".to_string()).to_key_bytes(), Err(ProtocolError::KeyAgreementFailed));
    let j = Value::Json(b"[1,2]".to_vec());
    assert_eq!(j.copy(), j);
    let first = pairs(&[("k", Value::UInt(1)), ("k", Value::UInt(2))]);
    assert_eq!(payload_get(&first, "k"), Some(&Value::UInt(1)));
}

#[test]
fn aad_with_other_version_fails_authentication() {
    let key = [4u8; 32];
    let ct = encrypt_message(&key, 1, 2, b"hi", &build_aad(3, ALICE, BOB)).unwrap();
    let mut env = vec![0, 0, 0, 1, 0, 0, 0, 2];
    env.extend_from_slice(&ct);
    assert_eq!(open_envelope(&key, &env, 0, ALICE, BOB).err(), Some(ProtocolError::AeadAuthFailed));
    let ct = encrypt_message(&key, 1, 2, b"hi", &build_aad(2, ALICE, BOB)).unwrap();
    let mut env = vec![0, 0, 0, 1, 0, 0, 0, 2];
    env.extend_from_slice(&ct);
    assert_eq!(open_envelope(&key, &env, 0, ALICE, BOB).unwrap().plaintext, b"hi".to_vec());
}

#[test]
fn thank_over_byte_allowance_counts_a_violation() {
    let mut p = pair();
    let decision = policy(&[("accept", Value::Bool(false))]);
    let welcome = handshake(&mut p, &decision);
    p.req.on_welcome(&welcome, enc(&welcome).len()).unwrap();
    let thank = p.req.thank(1002).unwrap();
    let tenv = p.req.seal(&thank, &enc(&thank)).unwrap();
    let opened = p.resp.session.open(&tenv).unwrap();
    p.rl.check_bytes(ALICE, 100 * 1024 * 1024 - 10_000, 50_001).unwrap();
    assert_eq!(
        p.resp.on_thank(&thank, &opened, tenv.len() + 10_000, &mut p.bl, &mut p.rl, 50_001),
        Err(ProtocolError::RateLimit)
    );
    assert_eq!(violations(&p.bl, ALICE, BlockReason::RateLimitViolations), 1);
    assert_eq!(p.resp.session.key, [0u8; 32]);
}

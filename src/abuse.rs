use vstd::prelude::*;
use crate::assoc::{assoc, distinct_keys, first_at, lemma_assoc_absent, lemma_assoc_first, lemma_assoc_push, lemma_assoc_update, lemma_distinct_push, lemma_distinct_update};
use crate::error::ProtocolError;
use crate::message::str_eq;

verus! {

/// Knocks an agent may make within one window.
pub const MAX_KNOCKS_PER_HOUR: u64 = 100;

/// Bytes an agent may send within one window.
pub const MAX_BYTES_PER_HOUR: u64 = 100 * 1024 * 1024;

/// Length of a rate window, in seconds.
pub const RATE_WINDOW_SECS: u64 = 3600;

/// Why an agent's violations are counted.
#[derive(Debug, Clone, Copy, PartialEq, Eq, Structural)]
pub enum BlockReason {
    Spam,
    MalformedMessages,
    SizeViolations,
    RateLimitViolations,
    SuspiciousBehavior,
    ManualBlock,
}

impl BlockReason {
    /// The violation count at which an agent becomes blocked.
    pub open spec fn threshold(self) -> u16 {
        match self {
            BlockReason::SizeViolations => 3,
            BlockReason::RateLimitViolations => 10,
            BlockReason::MalformedMessages => 5,
            BlockReason::SuspiciousBehavior => 5,
            BlockReason::Spam => 5,
            BlockReason::ManualBlock => 1,
        }
    }

    pub fn block_threshold(&self) -> (r: u16)
        ensures
            r == self.threshold(),
    {
        match self {
            BlockReason::SizeViolations => 3,
            BlockReason::RateLimitViolations => 10,
            BlockReason::MalformedMessages => 5,
            BlockReason::SuspiciousBehavior => 5,
            BlockReason::Spam => 5,
            BlockReason::ManualBlock => 1,
        }
    }
}

/// An agent's violations, counted per reason.
#[derive(Debug, Clone, Copy, PartialEq, Eq, Structural)]
pub struct ViolationCounts {
    pub spam: u16,
    pub malformed_messages: u16,
    pub size_violations: u16,
    pub rate_limit_violations: u16,
    pub suspicious_behavior: u16,
    pub manual_block: u16,
}

impl ViolationCounts {
    pub open spec fn count(self, reason: BlockReason) -> u16 {
        match reason {
            BlockReason::Spam => self.spam,
            BlockReason::MalformedMessages => self.malformed_messages,
            BlockReason::SizeViolations => self.size_violations,
            BlockReason::RateLimitViolations => self.rate_limit_violations,
            BlockReason::SuspiciousBehavior => self.suspicious_behavior,
            BlockReason::ManualBlock => self.manual_block,
        }
    }

    /// These counts with the count for `reason` set to `n`.
    pub open spec fn with(self, reason: BlockReason, n: u16) -> ViolationCounts {
        match reason {
            BlockReason::Spam => ViolationCounts { spam: n, ..self },
            BlockReason::MalformedMessages => ViolationCounts { malformed_messages: n, ..self },
            BlockReason::SizeViolations => ViolationCounts { size_violations: n, ..self },
            BlockReason::RateLimitViolations => ViolationCounts { rate_limit_violations: n, ..self },
            BlockReason::SuspiciousBehavior => ViolationCounts { suspicious_behavior: n, ..self },
            BlockReason::ManualBlock => ViolationCounts { manual_block: n, ..self },
        }
    }

    pub open spec fn none() -> ViolationCounts {
        ViolationCounts {
            spam: 0,
            malformed_messages: 0,
            size_violations: 0,
            rate_limit_violations: 0,
            suspicious_behavior: 0,
            manual_block: 0,
        }
    }

    pub fn zero() -> (r: ViolationCounts)
        ensures
            r == ViolationCounts::none(),
    {
        ViolationCounts {
            spam: 0,
            malformed_messages: 0,
            size_violations: 0,
            rate_limit_violations: 0,
            suspicious_behavior: 0,
            manual_block: 0,
        }
    }

    pub fn get(&self, reason: BlockReason) -> (r: u16)
        ensures
            r == self.count(reason),
    {
        match reason {
            BlockReason::Spam => self.spam,
            BlockReason::MalformedMessages => self.malformed_messages,
            BlockReason::SizeViolations => self.size_violations,
            BlockReason::RateLimitViolations => self.rate_limit_violations,
            BlockReason::SuspiciousBehavior => self.suspicious_behavior,
            BlockReason::ManualBlock => self.manual_block,
        }
    }

    /// One more violation for `reason`; the count stops at its maximum.
    pub fn bumped(&self, reason: BlockReason) -> (r: ViolationCounts)
        ensures
            r == self.with(reason, next_count(self.count(reason))),
    {
        let n = self.get(reason);
        let n = if n == u16::MAX {
            n
        } else {
            n + 1
        };
        match reason {
            BlockReason::Spam => ViolationCounts { spam: n, ..*self },
            BlockReason::MalformedMessages => ViolationCounts { malformed_messages: n, ..*self },
            BlockReason::SizeViolations => ViolationCounts { size_violations: n, ..*self },
            BlockReason::RateLimitViolations => ViolationCounts { rate_limit_violations: n, ..*self },
            BlockReason::SuspiciousBehavior => ViolationCounts { suspicious_behavior: n, ..*self },
            BlockReason::ManualBlock => ViolationCounts { manual_block: n, ..*self },
        }
    }
}

/// Setting a reason's count is seen by that reason and by no other.
pub proof fn lemma_count_with(c: ViolationCounts, reason: BlockReason, n: u16, other: BlockReason)
    ensures
        c.with(reason, n).count(other) == if other == reason {
            n
        } else {
            c.count(other)
        },
{
    match reason {
        BlockReason::Spam => {},
        BlockReason::MalformedMessages => {},
        BlockReason::SizeViolations => {},
        BlockReason::RateLimitViolations => {},
        BlockReason::SuspiciousBehavior => {},
        BlockReason::ManualBlock => {},
    }
}

/// A count after one more violation; it stops at its maximum.
pub open spec fn next_count(n: u16) -> u16 {
    if n == u16::MAX {
        n
    } else {
        (n + 1) as u16
    }
}

/// What the blocklist records of one agent.
#[derive(Debug, Clone, Copy, PartialEq, Eq, Structural)]
pub struct BlockState {
    /// The reason of the latest violation.
    pub reason: BlockReason,
    /// When the agent became blocked; `None` while it is not.
    pub blocked_at: Option<u64>,
    pub counts: ViolationCounts,
}

pub struct BlocklistEntry {
    pub agent_id: String,
    pub state: BlockState,
}

/// Agents with recorded violations, the blocked ones among them; at most
/// one entry per agent id.
pub struct Blocklist {
    pub entries: Vec<BlocklistEntry>,
}

/// The state after one more violation for `reason`: that reason's count goes
/// up, and an agent not yet blocked is blocked from `now` once the count
/// reaches the reason's threshold. Counts for other reasons stay.
pub open spec fn after_violation(old: Option<BlockState>, reason: BlockReason, now: u64) -> BlockState {
    let prior = match old {
        Some(s) => s,
        None => BlockState { reason, blocked_at: None, counts: ViolationCounts::none() },
    };
    let count = next_count(prior.counts.count(reason));
    BlockState {
        reason,
        blocked_at: if prior.blocked_at is Some {
            prior.blocked_at
        } else if count >= reason.threshold() {
            Some(now)
        } else {
            None
        },
        counts: prior.counts.with(reason, count),
    }
}

/// The state of an agent with no earlier record after one violation for
/// `reason` at each of `times`, in order.
pub open spec fn after_violations(reason: BlockReason, times: Seq<u64>) -> Option<BlockState>
    decreases times.len(),
{
    if times.len() == 0 {
        None
    } else {
        Some(after_violation(after_violations(reason, times.drop_last()), reason, times.last()))
    }
}

/// An agent violating for one reason only is blocked exactly from the
/// violation that reaches the reason's threshold, and at that one's time.
pub proof fn lemma_repeated_violations(reason: BlockReason, times: Seq<u64>)
    requires
        1 <= times.len() <= u16::MAX,
    ensures
        after_violations(reason, times) matches Some(s) && {
            &&& s.counts.count(reason) == times.len()
            &&& s.blocked_at == if times.len() >= reason.threshold() {
                Some(times[reason.threshold() - 1])
            } else {
                None::<u64>
            }
        },
    decreases times.len(),
{
    let prior = after_violations(reason, times.drop_last());
    let base = match prior {
        Some(s) => s,
        None => BlockState { reason, blocked_at: None, counts: ViolationCounts::none() },
    };
    lemma_count_with(base.counts, reason, next_count(base.counts.count(reason)), reason);
    assert(reason.threshold() >= 1);
    if times.len() == 1 {
        assert(times.drop_last().len() == 0);
        assert(prior is None);
        assert(ViolationCounts::none().count(reason) == 0);
    } else {
        lemma_repeated_violations(reason, times.drop_last());
        if times.len() - 1 >= reason.threshold() {
            assert(times.drop_last()[reason.threshold() - 1] == times[reason.threshold() - 1]);
        }
    }
}

impl Blocklist {
    /// Every agent id appears once.
    pub open spec fn wf(&self) -> bool {
        distinct_keys(self.pairs())
    }

    /// The blocklist as pairs of agent id and state.
    pub open spec fn pairs(&self) -> Seq<(Seq<char>, BlockState)> {
        self.entries@.map_values(|e: BlocklistEntry| (e.agent_id@, e.state))
    }

    /// What the blocklist records of `agent`.
    pub open spec fn state_of(&self, agent: Seq<char>) -> Option<BlockState> {
        assoc(self.pairs(), agent)
    }

    pub open spec fn blocked(&self, agent: Seq<char>) -> bool {
        self.state_of(agent) matches Some(s) && s.blocked_at is Some
    }

    pub fn new() -> (r: Blocklist)
        ensures
            r.wf(),
            forall|a: Seq<char>| #[trigger] r.state_of(a) is None,
    {
        let r = Blocklist { entries: Vec::new() };
        assert(r.pairs() =~= Seq::<(Seq<char>, BlockState)>::empty());
        r
    }

    /// Where `agent` stands in the list, if anywhere.
    fn position(&self, agent: &str) -> (r: Option<usize>)
        ensures
            r matches Some(i) ==> first_at(self.pairs(), agent@, i as int),
            r is None ==> forall|j: int| 0 <= j < self.pairs().len() ==> #[trigger] self.pairs()[j].0 != agent@,
    {
        let mut i: usize = 0;
        while i < self.entries.len()
            invariant
                i <= self.entries@.len(),
                forall|j: int| 0 <= j < i ==> #[trigger] self.pairs()[j].0 != agent@,
            decreases self.entries@.len() - i,
        {
            if str_eq(self.entries[i].agent_id.as_str(), agent) {
                return Some(i);
            }
            i = i + 1;
        }
        None
    }

    /// What the blocklist records of `agent_id`.
    fn lookup_state(&self, agent_id: &str) -> (r: Option<BlockState>)
        ensures
            r == self.state_of(agent_id@),
    {
        match self.position(agent_id) {
            Some(i) => {
                proof {
                    lemma_assoc_first(self.pairs(), agent_id@, i as int);
                }
                Some(self.entries[i].state)
            },
            None => {
                proof {
                    lemma_assoc_absent(self.pairs(), agent_id@);
                }
                None
            },
        }
    }

    pub fn is_blocked(&self, agent_id: &str) -> (r: bool)
        ensures
            r == self.blocked(agent_id@),
    {
        match self.lookup_state(agent_id) {
            Some(s) => s.blocked_at.is_some(),
            None => false,
        }
    }

    /// The number of violations of `agent_id` for `reason`.
    pub fn violation_count(&self, agent_id: &str, reason: BlockReason) -> (r: u16)
        ensures
            r == match self.state_of(agent_id@) {
                Some(s) => s.counts.count(reason),
                None => 0,
            },
    {
        match self.lookup_state(agent_id) {
            Some(s) => s.counts.get(reason),
            None => 0,
        }
    }

    /// Records `state` for `agent`, leaving every other agent as it was.
    fn record(&mut self, agent: &str, state: BlockState)
        requires
            old(self).wf(),
        ensures
            final(self).wf(),
            forall|a: Seq<char>| #[trigger] final(self).state_of(a) == if a == agent@ {
                Some(state)
            } else {
                old(self).state_of(a)
            },
    {
        match self.position(agent) {
            Some(i) => {
                let ghost p = self.pairs();
                let id = self.entries[i].agent_id.clone();
                self.entries.set(i, BlocklistEntry { agent_id: id, state });
                proof {
                    assert(self.pairs() =~= p.update(i as int, (agent@, state)));
                    lemma_distinct_update(p, i as int, state);
                    assert forall|a: Seq<char>| #[trigger] self.state_of(a) == if a == agent@ {
                        Some(state)
                    } else {
                        old(self).state_of(a)
                    } by {
                        lemma_assoc_update(p, agent@, i as int, state, a);
                    }
                }
            },
            None => {
                let ghost p = self.pairs();
                proof {
                    lemma_assoc_absent(p, agent@);
                    lemma_distinct_push(p, agent@, state);
                }
                self.entries.push(BlocklistEntry { agent_id: agent.to_owned(), state });
                proof {
                    assert(self.pairs() =~= p.push((agent@, state)));
                    assert forall|a: Seq<char>| #[trigger] self.state_of(a) == if a == agent@ {
                        Some(state)
                    } else {
                        old(self).state_of(a)
                    } by {
                        lemma_assoc_push(p, agent@, state, a);
                    }
                }
            },
        }
    }

    /// Counts one violation of `agent_id` for `reason` at time `now`.
    pub fn add_violation(&mut self, agent_id: &str, reason: BlockReason, now: u64)
        requires
            old(self).wf(),
        ensures
            final(self).wf(),
            forall|a: Seq<char>| #[trigger] final(self).state_of(a) == if a == agent_id@ {
                Some(after_violation(old(self).state_of(agent_id@), reason, now))
            } else {
                old(self).state_of(a)
            },
    {
        let prior = match self.lookup_state(agent_id) {
            Some(s) => s,
            None => BlockState { reason, blocked_at: None, counts: ViolationCounts::zero() },
        };
        let counts = prior.counts.bumped(reason);
        let count = counts.get(reason);
        let blocked_at = if prior.blocked_at.is_some() {
            prior.blocked_at
        } else if count >= reason.block_threshold() {
            Some(now)
        } else {
            None
        };
        self.record(agent_id, BlockState { reason, blocked_at, counts });
    }

    /// Blocks `agent_id` outright from `now`; the block counts as one
    /// violation for `reason`.
    pub fn block(&mut self, agent_id: &str, reason: BlockReason, now: u64)
        requires
            old(self).wf(),
        ensures
            final(self).wf(),
            forall|a: Seq<char>| #[trigger] final(self).state_of(a) == if a == agent_id@ {
                Some(BlockState {
                    reason,
                    blocked_at: Some(now),
                    counts: match old(self).state_of(agent_id@) {
                        Some(s) => s.counts,
                        None => ViolationCounts::none(),
                    }.with(reason, next_count(match old(self).state_of(agent_id@) {
                        Some(s) => s.counts.count(reason),
                        None => 0,
                    })),
                })
            } else {
                old(self).state_of(a)
            },
    {
        let prior = match self.lookup_state(agent_id) {
            Some(s) => s.counts,
            None => ViolationCounts::zero(),
        };
        let counts = prior.bumped(reason);
        self.record(agent_id, BlockState { reason, blocked_at: Some(now), counts });
    }
}

/// A tumbling window: the amount counted since `reset_at`.
#[derive(Debug, Clone, Copy, PartialEq, Eq, Structural)]
pub struct Window {
    pub count: u64,
    pub reset_at: u64,
}

/// The window in force at `now`: a missing window, or one that started more
/// than an hour before `now`, starts afresh at `now`.
pub open spec fn current_window(w: Option<Window>, now: u64) -> Window {
    let hour_ago = if now >= RATE_WINDOW_SECS {
        now - RATE_WINDOW_SECS
    } else {
        0
    };
    match w {
        Some(w) => if w.reset_at < hour_ago {
            Window { count: 0, reset_at: now }
        } else {
            w
        },
        None => Window { count: 0, reset_at: now },
    }
}

/// Adding `amount` to the window in force at `now` against `limit`: refused
/// when the sum would pass the limit, in which case the window is kept as it
/// stands.
pub open spec fn charge(w: Option<Window>, now: u64, amount: u64, limit: u64) -> (Result<(), ProtocolError>, Window) {
    let cur = current_window(w, now);
    if cur.count + amount > limit {
        (Err(ProtocolError::RateLimit), cur)
    } else {
        (Ok(()), Window { count: (cur.count + amount) as u64, reset_at: cur.reset_at })
    }
}

pub struct RateEntry {
    pub agent_id: String,
    pub window: Window,
}

/// Per-agent windows of knocks and of bytes received.
pub struct RateLimiter {
    pub knocks: Vec<RateEntry>,
    pub bytes: Vec<RateEntry>,
}

pub open spec fn rate_pairs(entries: Seq<RateEntry>) -> Seq<(Seq<char>, Window)> {
    entries.map_values(|e: RateEntry| (e.agent_id@, e.window))
}

/// Where `agent` stands in `entries`, if anywhere.
fn rate_position(entries: &Vec<RateEntry>, agent: &str) -> (r: Option<usize>)
    ensures
        r matches Some(i) ==> first_at(rate_pairs(entries@), agent@, i as int),
        r is None ==> forall|j: int|
            0 <= j < rate_pairs(entries@).len() ==> #[trigger] rate_pairs(entries@)[j].0 != agent@,
{
    let mut i: usize = 0;
    while i < entries.len()
        invariant
            i <= entries@.len(),
            forall|j: int| 0 <= j < i ==> #[trigger] rate_pairs(entries@)[j].0 != agent@,
        decreases entries@.len() - i,
    {
        if str_eq(entries[i].agent_id.as_str(), agent) {
            return Some(i);
        }
        i = i + 1;
    }
    None
}

/// Charges `amount` to `agent`'s window in `entries` against `limit`.
fn charge_entry(entries: &mut Vec<RateEntry>, agent: &str, amount: u64, limit: u64, now: u64) -> (r: Result<(), ProtocolError>)
    requires
        distinct_keys(rate_pairs(old(entries)@)),
    ensures
        distinct_keys(rate_pairs(final(entries)@)),
        r == charge(assoc(rate_pairs(old(entries)@), agent@), now, amount, limit).0,
        forall|a: Seq<char>| #[trigger] assoc(rate_pairs(final(entries)@), a) == if a == agent@ {
            Some(charge(assoc(rate_pairs(old(entries)@), agent@), now, amount, limit).1)
        } else {
            assoc(rate_pairs(old(entries)@), a)
        },
{
    let ghost p = rate_pairs(entries@);
    let pos = rate_position(entries, agent);
    let prior = match pos {
        Some(i) => {
            proof {
                lemma_assoc_first(p, agent@, i as int);
            }
            Some(entries[i].window)
        },
        None => {
            proof {
                lemma_assoc_absent(p, agent@);
            }
            None
        },
    };
    let hour_ago = if now >= RATE_WINDOW_SECS {
        now - RATE_WINDOW_SECS
    } else {
        0
    };
    let cur = match prior {
        Some(w) => if w.reset_at < hour_ago {
            Window { count: 0, reset_at: now }
        } else {
            w
        },
        None => Window { count: 0, reset_at: now },
    };
    let over = amount > limit || cur.count > limit - amount;
    let next = if over {
        cur
    } else {
        Window { count: cur.count + amount, reset_at: cur.reset_at }
    };
    match pos {
        Some(i) => {
            let id = entries[i].agent_id.clone();
            entries.set(i, RateEntry { agent_id: id, window: next });
            proof {
                lemma_distinct_update(p, i as int, next);
                assert(rate_pairs(entries@) =~= p.update(i as int, (agent@, next)));
                assert forall|a: Seq<char>| #[trigger] assoc(rate_pairs(entries@), a) == if a == agent@ {
                    Some(next)
                } else {
                    assoc(p, a)
                } by {
                    lemma_assoc_update(p, agent@, i as int, next, a);
                }
            }
        },
        None => {
            proof {
                lemma_distinct_push(p, agent@, next);
            }
            entries.push(RateEntry { agent_id: agent.to_owned(), window: next });
            proof {
                assert(rate_pairs(entries@) =~= p.push((agent@, next)));
                assert forall|a: Seq<char>| #[trigger] assoc(rate_pairs(entries@), a) == if a == agent@ {
                    Some(next)
                } else {
                    assoc(p, a)
                } by {
                    lemma_assoc_push(p, agent@, next, a);
                }
            }
        },
    }
    if over {
        Err(ProtocolError::RateLimit)
    } else {
        Ok(())
    }
}

impl RateLimiter {
    /// Every agent id appears once in each list.
    pub open spec fn wf(&self) -> bool {
        distinct_keys(rate_pairs(self.knocks@)) && distinct_keys(rate_pairs(self.bytes@))
    }

    pub open spec fn knock_window(&self, agent: Seq<char>) -> Option<Window> {
        assoc(rate_pairs(self.knocks@), agent)
    }

    pub open spec fn byte_window(&self, agent: Seq<char>) -> Option<Window> {
        assoc(rate_pairs(self.bytes@), agent)
    }

    pub fn new() -> (r: RateLimiter)
        ensures
            r.wf(),
            forall|a: Seq<char>| #[trigger] r.knock_window(a) is None && r.byte_window(a) is None,
    {
        let r = RateLimiter { knocks: Vec::new(), bytes: Vec::new() };
        assert(rate_pairs(r.knocks@) =~= Seq::<(Seq<char>, Window)>::empty());
        assert(rate_pairs(r.bytes@) =~= Seq::<(Seq<char>, Window)>::empty());
        r
    }

    /// Counts one knock of `agent_id` at `now`: refused once the window
    /// holds the hour's allowance.
    pub fn check_knock(&mut self, agent_id: &str, now: u64) -> (r: Result<(), ProtocolError>)
        requires
            old(self).wf(),
        ensures
            final(self).wf(),
            r == charge(old(self).knock_window(agent_id@), now, 1, MAX_KNOCKS_PER_HOUR).0,
            forall|a: Seq<char>| #[trigger] final(self).knock_window(a) == if a == agent_id@ {
                Some(charge(old(self).knock_window(agent_id@), now, 1, MAX_KNOCKS_PER_HOUR).1)
            } else {
                old(self).knock_window(a)
            },
            forall|a: Seq<char>| #[trigger] final(self).byte_window(a) == old(self).byte_window(a),
    {
        charge_entry(&mut self.knocks, agent_id, 1, MAX_KNOCKS_PER_HOUR, now)
    }

    /// Counts `bytes` received from `agent_id` at `now`: refused when they
    /// would pass the hour's allowance.
    pub fn check_bytes(&mut self, agent_id: &str, bytes: u64, now: u64) -> (r: Result<(), ProtocolError>)
        requires
            old(self).wf(),
        ensures
            final(self).wf(),
            r == charge(old(self).byte_window(agent_id@), now, bytes, MAX_BYTES_PER_HOUR).0,
            forall|a: Seq<char>| #[trigger] final(self).byte_window(a) == if a == agent_id@ {
                Some(charge(old(self).byte_window(agent_id@), now, bytes, MAX_BYTES_PER_HOUR).1)
            } else {
                old(self).byte_window(a)
            },
            forall|a: Seq<char>| #[trigger] final(self).knock_window(a) == old(self).knock_window(a),
    {
        charge_entry(&mut self.bytes, agent_id, bytes, MAX_BYTES_PER_HOUR, now)
    }
}

} // verus!

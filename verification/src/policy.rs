//! Capability policy: scoped, expiring capabilities and the engine that decides
//! whether an agent may perform an action.

use vstd::prelude::*;
use crate::auth::{AgentId, AgentIdentity, DelegationLink};
use crate::clock::{now_millis, uuid_text, uuid_to_string};
use crate::text::push_str;

verus! {

/// Breadth of a capability.
#[derive(Clone, Copy, Debug, PartialEq, Eq, Structural)]
pub enum Scope {
    NoAccess,
    Read,
    Write,
    All,
}

impl Default for Scope {
    fn default() -> (s: Scope)
        ensures
            s == Scope::NoAccess,
    {
        Scope::NoAccess
    }
}

/// Largest time-to-live, in seconds, that a capability may be given (about
/// 285,000 years); it keeps every expiry time within `i64` milliseconds.
pub const MAX_TTL_SECONDS: i64 = 9_000_000_000_000;

/// A named capability; `expiration` is in milliseconds since the Unix epoch.
#[derive(Clone, Debug)]
pub struct Capability {
    pub name: String,
    pub scope: Scope,
    pub expiration: Option<i64>,
}

/// The expiry time of a capability granted at `now` for `ttl_seconds`.
pub open spec fn expiry_for(now: i64, ttl_seconds: Option<i64>) -> Option<i64> {
    match ttl_seconds {
        Some(s) => Some((now + s * 1000) as i64),
        None => None,
    }
}

/// An expiry time has passed at `now` (strictly later than it).
pub open spec fn expired_at(expiration: Option<i64>, now: i64) -> bool {
    expiration matches Some(e) && now > e
}

pub open spec fn ttl_ok(ttl_seconds: Option<i64>) -> bool {
    ttl_seconds matches Some(s) ==> -MAX_TTL_SECONDS <= s <= MAX_TTL_SECONDS
}

impl Capability {
    /// A capability granted at the time `now` (milliseconds), expiring
    /// `ttl_seconds` later when one is given.
    pub fn new_at(name: &str, scope: Scope, ttl_seconds: Option<i64>, now: i64) -> (c: Capability)
        requires
            0 <= now < crate::clock::TIMESTAMP_BOUND,
            ttl_ok(ttl_seconds),
        ensures
            c.name@ == name@,
            c.scope == scope,
            c.expiration == expiry_for(now, ttl_seconds),
    {
        let expiration = match ttl_seconds {
            Some(s) => Some(now + s * 1000),
            None => None,
        };
        Capability { name: name.to_owned(), scope, expiration }
    }

    /// A capability granted now, expiring `ttl_seconds` from now when one is given.
    pub fn new(name: &str, scope: Scope, ttl_seconds: Option<i64>) -> (c: Capability)
        requires
            ttl_ok(ttl_seconds),
        ensures
            c.name@ == name@,
            c.scope == scope,
            exists|now: i64|
                0 <= now < crate::clock::TIMESTAMP_BOUND && c.expiration == #[trigger] expiry_for(now, ttl_seconds),
    {
        let now = now_millis();
        Capability::new_at(name, scope, ttl_seconds, now)
    }

    /// Whether the capability has expired at the time `now`.
    pub fn is_expired_at(&self, now: i64) -> (r: bool)
        ensures
            r == expired_at(self.expiration, now),
    {
        match self.expiration {
            Some(e) => now > e,
            None => false,
        }
    }

    /// Whether the capability has expired; one without expiry never does.
    pub fn is_expired(&self) -> (r: bool)
        ensures
            exists|now: i64| 0 <= now < crate::clock::TIMESTAMP_BOUND && r == #[trigger] expired_at(self.expiration, now),
    {
        let now = now_millis();
        self.is_expired_at(now)
    }
}

/// The capabilities granted to an agent.
#[derive(Clone, Debug)]
pub struct CapabilitySet {
    pub caps: Vec<Capability>,
}

/// Some capability of `caps` is named `name` and has not expired at `now`.
pub open spec fn holds(caps: Seq<Capability>, name: Seq<char>, now: i64) -> bool {
    exists|i: int| 0 <= i < caps.len() && #[trigger] caps[i].name@ == name && !expired_at(caps[i].expiration, now)
}

impl Default for CapabilitySet {
    fn default() -> (s: CapabilitySet)
        ensures
            s.caps@.len() == 0,
    {
        CapabilitySet::new()
    }
}

impl CapabilitySet {
    /// The empty set.
    pub fn new() -> (s: CapabilitySet)
        ensures
            s.caps@.len() == 0,
    {
        CapabilitySet { caps: Vec::new() }
    }

    /// Adds `cap` after the capabilities already granted.
    pub fn grant(&mut self, cap: Capability)
        ensures
            final(self).caps@ == old(self).caps@.push(cap),
    {
        self.caps.push(cap);
    }

    /// Whether an unexpired capability named `name` is held at the time `now`.
    pub fn has_at(&self, name: &str, now: i64) -> (r: bool)
        ensures
            r == holds(self.caps@, name@, now),
    {
        let wanted = name.to_owned();
        let mut i: usize = 0;
        while i < self.caps.len()
            invariant
                i <= self.caps@.len(),
                wanted@ == name@,
                forall|j: int|
                    0 <= j < i ==> !(#[trigger] self.caps@[j].name@ == name@ && !expired_at(
                        self.caps@[j].expiration,
                        now,
                    )),
            decreases self.caps.len() - i,
        {
            let c = &self.caps[i];
            if c.name == wanted && !c.is_expired_at(now) {
                return true;
            }
            i += 1;
        }
        false
    }

    /// Whether an unexpired capability named `name` is held now.
    pub fn has(&self, name: &str) -> (r: bool)
        ensures
            exists|now: i64| 0 <= now < crate::clock::TIMESTAMP_BOUND && r == #[trigger] holds(self.caps@, name@, now),
    {
        let now = now_millis();
        self.has_at(name, now)
    }
}

/// A policy decision: allow, or deny with a reason.
#[derive(Clone, Debug)]
pub enum Decision {
    Allow,
    Deny { reason: String },
}

/// The view of a decision: `None` for allow, the reason's characters for deny.
pub open spec fn decision_view(d: Decision) -> Option<Seq<char>> {
    match d {
        Decision::Allow => None,
        Decision::Deny { reason } => Some(reason@),
    }
}

/// Decides actions against an allow list of action names.
#[derive(Debug)]
pub struct PolicyEngine {
    allow_list: Vec<String>,
}

impl View for PolicyEngine {
    type V = Set<Seq<char>>;

    closed spec fn view(&self) -> Set<Seq<char>> {
        Set::new(|a: Seq<char>| exists|i: int| 0 <= i < self.allow_list@.len() && #[trigger] self.allow_list@[i]@ == a)
    }
}

/// The debug text of an agent identifier: `AgentId(` and the hyphenated UUID, then `)`.
pub open spec fn agent_text(a: AgentId) -> Seq<char> {
    "AgentId("@ + uuid_text(a.0) + ")"@
}

/// Index of the first link of `links` that has expired at `now`.
pub open spec fn first_expired(links: Seq<DelegationLink>, now: i64) -> Option<int>
    decreases links.len(),
{
    if links.len() == 0 {
        None
    } else if expired_at(links[0].expires_at, now) {
        Some(0)
    } else {
        match first_expired(links.drop_first(), now) {
            Some(i) => Some(i + 1),
            None => None,
        }
    }
}

/// The reason given when the delegation from `from` has expired.
pub open spec fn expired_reason(from: AgentId) -> Seq<char> {
    "delegation "@ + agent_text(from) + " expired"@
}

/// The reason given when `agent` lacks `action` in the allow list.
pub open spec fn lacks_reason(agent: AgentId, action: Seq<char>) -> Seq<char> {
    "agent "@ + agent_text(agent) + " lacks capability: "@ + action
}

/// The reason given when the agent's capability set lacks the action.
pub open spec fn missing_in_set_reason() -> Seq<char> {
    "capability missing in agent CapabilitySet"@
}

/// What `check` decides for `agent` and `action` at the time `now`, given the allow list.
pub open spec fn check_spec(allowed: Set<Seq<char>>, agent: AgentIdentity, action: Seq<char>, now: i64) -> Option<Seq<char>> {
    match first_expired(agent.delegation_chain.links@, now) {
        Some(i) => Some(expired_reason(agent.delegation_chain.links@[i].from)),
        None => if allowed.contains(action) {
            None
        } else {
            Some(lacks_reason(agent.agent_id, action))
        },
    }
}

/// What `check_with_caps` decides at the time `now`.
pub open spec fn check_with_caps_spec(
    allowed: Set<Seq<char>>,
    agent: AgentIdentity,
    caps: Seq<Capability>,
    action: Seq<char>,
    now: i64,
) -> Option<Seq<char>> {
    match check_spec(allowed, agent, action, now) {
        None => if holds(caps, action, now) {
            None
        } else {
            Some(missing_in_set_reason())
        },
        Some(r) => Some(r),
    }
}

proof fn lemma_first_expired_prefix(links: Seq<DelegationLink>, now: i64, i: int)
    requires
        0 <= i <= links.len(),
        forall|j: int| 0 <= j < i ==> !expired_at(#[trigger] links[j].expires_at, now),
    ensures
        i < links.len() && expired_at(links[i].expires_at, now) ==> first_expired(links, now) == Some(i),
        i == links.len() ==> first_expired(links, now) is None,
    decreases i,
{
    if i > 0 {
        let t = links.drop_first();
        assert forall|j: int| 0 <= j < i - 1 implies !expired_at(#[trigger] t[j].expires_at, now) by {
            assert(t[j] == links[j + 1]);
        }
        lemma_first_expired_prefix(t, now, i - 1);
    }
}

/// `"AgentId(<uuid>)"` appended to `v`.
fn push_agent_text(v: &mut Vec<char>, a: AgentId)
    ensures
        final(v)@ == old(v)@ + agent_text(a),
{
    push_str(v, "AgentId(");
    let u = uuid_to_string(a.0);
    push_str(v, u.as_str());
    push_str(v, ")");
    proof {
        assert(final(v)@ =~= old(v)@ + agent_text(a));
    }
}

impl Default for PolicyEngine {
    fn default() -> (p: PolicyEngine)
        ensures
            p@ == Set::<Seq<char>>::empty(),
    {
        PolicyEngine::new()
    }
}

impl PolicyEngine {
    #[verifier::type_invariant]
    spec fn distinct(self) -> bool {
        forall|i: int, j: int|
            0 <= i < j < self.allow_list@.len() ==> #[trigger] self.allow_list@[i]@ != #[trigger] self.allow_list@[j]@
    }

    /// An engine that allows nothing.
    pub fn new() -> (p: PolicyEngine)
        ensures
            p@ == Set::<Seq<char>>::empty(),
    {
        let p = PolicyEngine { allow_list: Vec::new() };
        assert(p@ =~= Set::<Seq<char>>::empty());
        p
    }

    /// Whether `action` is in the allow list.
    pub fn allows(&self, action: &str) -> (r: bool)
        ensures
            r == self@.contains(action@),
    {
        let wanted = action.to_owned();
        let mut i: usize = 0;
        while i < self.allow_list.len()
            invariant
                i <= self.allow_list@.len(),
                wanted@ == action@,
                forall|j: int| 0 <= j < i ==> #[trigger] self.allow_list@[j]@ != action@,
            decreases self.allow_list.len() - i,
        {
            if self.allow_list[i] == wanted {
                assert(self@.contains(action@));
                return true;
            }
            i += 1;
        }
        false
    }

    /// Adds `cap` to the allow list.
    pub fn add_capability(&mut self, cap: &str)
        ensures
            final(self)@ == old(self)@.insert(cap@),
    {
        proof {
            use_type_invariant(&*self);
        }
        if !self.allows(cap) {
            let ghost before = self.allow_list@;
            let mut list = Vec::new();
            std::mem::swap(&mut list, &mut self.allow_list);
            list.push(cap.to_owned());
            assert(forall|j: int| 0 <= j < before.len() ==> #[trigger] list@[j] == before[j]);
            self.allow_list = list;
            proof {
                assert forall|a: Seq<char>| #[trigger] self@.contains(a) == old(self)@.insert(cap@).contains(a) by {
                    if old(self)@.contains(a) {
                        let i = choose|i: int| 0 <= i < before.len() && #[trigger] before[i]@ == a;
                        assert(self.allow_list@[i]@ == a);
                    }
                    if a == cap@ {
                        assert(self.allow_list@[before.len() as int]@ == a);
                    }
                    if self@.contains(a) {
                        let i = choose|i: int| 0 <= i < self.allow_list@.len() && #[trigger] self.allow_list@[i]@ == a;
                        if i < before.len() {
                            assert(before[i]@ == a);
                        }
                    }
                }
            }
        }
        assert(self@ =~= old(self)@.insert(cap@));
    }

    /// The decision for `agent` and `action` at the time `now`: denied when a
    /// delegation link has expired, otherwise allowed exactly when the allow
    /// list holds the action.
    pub fn check_at(&self, agent: &AgentIdentity, action: &str, now: i64) -> (d: Decision)
        ensures
            decision_view(d) == check_spec(self@, *agent, action@, now),
    {
        let links = &agent.delegation_chain.links;
        let mut i: usize = 0;
        while i < links.len()
            invariant
                i <= links@.len(),
                links@ == agent.delegation_chain.links@,
                forall|j: int| 0 <= j < i ==> !expired_at(#[trigger] links@[j].expires_at, now),
            decreases links.len() - i,
        {
            let link = &links[i];
            let expired = match link.expires_at {
                Some(e) => now > e,
                None => false,
            };
            if expired {
                proof {
                    lemma_first_expired_prefix(links@, now, i as int);
                }
                let mut v: Vec<char> = Vec::new();
                push_str(&mut v, "delegation ");
                push_agent_text(&mut v, link.from);
                push_str(&mut v, " expired");
                assert(v@ =~= expired_reason(link.from));
                return Decision::Deny { reason: crate::text::string_from_chars(v.as_slice()) };
            }
            i += 1;
        }
        proof {
            lemma_first_expired_prefix(links@, now, i as int);
        }
        if self.allows(action) {
            Decision::Allow
        } else {
            let mut v: Vec<char> = Vec::new();
            push_str(&mut v, "agent ");
            push_agent_text(&mut v, agent.agent_id);
            push_str(&mut v, " lacks capability: ");
            push_str(&mut v, action);
            assert(v@ =~= lacks_reason(agent.agent_id, action@));
            Decision::Deny { reason: crate::text::string_from_chars(v.as_slice()) }
        }
    }

    /// The decision for `agent` and `action` now.
    pub fn check(&self, agent: &AgentIdentity, action: &str) -> (d: Decision)
        ensures
            exists|now: i64| 0 <= now < crate::clock::TIMESTAMP_BOUND && #[trigger] check_spec(self@, *agent, action@, now) == decision_view(d),
    {
        let now = now_millis();
        self.check_at(agent, action, now)
    }

    /// `check_at`, then, when that allows, whether `caps` holds an unexpired
    /// capability for the action at the time `now`.
    pub fn check_with_caps_at(&self, agent: &AgentIdentity, caps: &CapabilitySet, action: &str, now: i64) -> (d: Decision)
        ensures
            decision_view(d) == check_with_caps_spec(self@, *agent, caps.caps@, action@, now),
    {
        let base = self.check_at(agent, action, now);
        match base {
            Decision::Allow => {
                if caps.has_at(action, now) {
                    Decision::Allow
                } else {
                    proof {
                        reveal_strlit("capability missing in agent CapabilitySet");
                    }
                    Decision::Deny { reason: "capability missing in agent CapabilitySet".to_owned() }
                }
            },
            other => other,
        }
    }

    /// The decision for `agent`, `caps` and `action` now.
    pub fn check_with_caps(&self, agent: &AgentIdentity, caps: &CapabilitySet, action: &str) -> (d: Decision)
        ensures
            exists|now: i64| 0 <= now < crate::clock::TIMESTAMP_BOUND && #[trigger] check_with_caps_spec(self@, *agent, caps.caps@, action@, now) == decision_view(d),
    {
        let now = now_millis();
        self.check_with_caps_at(agent, caps, action, now)
    }
}

/// The decision of `check_with_caps` is "allow" exactly when no delegation link
/// has expired, the allow list holds the action, and the capability set holds
/// an unexpired capability for it: neither list alone suffices.
pub proof fn lemma_allow_needs_both(
    allowed: Set<Seq<char>>,
    agent: AgentIdentity,
    caps: Seq<Capability>,
    action: Seq<char>,
    now: i64,
)
    ensures
        check_with_caps_spec(allowed, agent, caps, action, now) is None <==> (first_expired(
            agent.delegation_chain.links@,
            now,
        ) is None && allowed.contains(action) && holds(caps, action, now)),
{
}

/// An engine with an empty allow list denies every action, whatever the agent.
pub proof fn lemma_empty_policy_denies(agent: AgentIdentity, action: Seq<char>, now: i64)
    ensures
        check_spec(Set::empty(), agent, action, now) is Some,
{
}

/// A capability granted without a time-to-live never expires, and one granted
/// with a non-negative time-to-live has not expired at the moment of grant.
pub proof fn lemma_fresh_capability_unexpired(now: i64, ttl_seconds: Option<i64>, later: i64)
    requires
        0 <= now < crate::clock::TIMESTAMP_BOUND,
        ttl_ok(ttl_seconds),
    ensures
        ttl_seconds is None ==> !expired_at(expiry_for(now, ttl_seconds), later),
        (ttl_seconds matches Some(s) && s >= 0) ==> !expired_at(expiry_for(now, ttl_seconds), now),
{
}

/// Once a delegation link has expired it stays expired: a denial for an expired
/// delegation at `now` is a denial at every later time too.
pub proof fn lemma_expiry_is_permanent(expiration: Option<i64>, now: i64, later: i64)
    requires
        now <= later,
        expired_at(expiration, now),
    ensures
        expired_at(expiration, later),
{
}

} // verus!

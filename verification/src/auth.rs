//! Agent identities, delegation chains and opaque credential handles.

use vstd::prelude::*;
use crate::clock::{new_uuid, now_millis, random_bytes};

verus! {

/// Identity of an agent (a UUID as a 128-bit integer).
#[derive(Clone, Copy, Debug, PartialEq, Eq, Hash)]
pub struct AgentId(pub u128);

/// Human authority behind agents (a UUID as a 128-bit integer).
#[derive(Clone, Copy, Debug, PartialEq, Eq, Hash)]
pub struct HumanId(pub u128);

impl AgentId {
    /// A fresh random identity.
    pub fn new() -> (a: AgentId) {
        AgentId(new_uuid())
    }
}

impl Default for AgentId {
    /// A fresh random identity.
    fn default() -> (a: AgentId) {
        AgentId::new()
    }
}

impl Default for HumanId {
    /// The nil identity.
    fn default() -> (h: HumanId)
        ensures
            h.0 == 0,
    {
        HumanId(0)
    }
}

/// One link of a delegation chain; times are milliseconds since the Unix epoch.
#[derive(Clone, Debug)]
pub struct DelegationLink {
    pub from: AgentId,
    pub to: AgentId,
    pub granted_at: i64,
    pub expires_at: Option<i64>,
}

/// A full delegation chain.
#[derive(Clone, Debug, Default)]
pub struct DelegationChain {
    pub links: Vec<DelegationLink>,
}

/// An agent with its human authority and its delegation chain.
#[derive(Clone, Debug)]
pub struct AgentIdentity {
    pub agent_id: AgentId,
    pub human: HumanId,
    pub delegation_chain: DelegationChain,
}

impl AgentIdentity {
    /// A fresh agent acting for `human`, with an empty delegation chain.
    pub fn new(human: HumanId) -> (a: AgentIdentity)
        ensures
            a.human == human,
            a.delegation_chain.links@.len() == 0,
    {
        AgentIdentity { agent_id: AgentId::new(), human, delegation_chain: DelegationChain { links: Vec::new() } }
    }
}

impl Default for AgentIdentity {
    /// A fresh agent acting for the nil human.
    fn default() -> (a: AgentIdentity) {
        AgentIdentity::new(HumanId(0))
    }
}

/// An opaque credential handle: callers hold it instead of raw credentials.
#[derive(Clone, Debug)]
pub struct AuthHandle {
    pub opaque: [u8; 32],
    pub broker_id: String,
}

impl AuthHandle {
    /// A handle with random opaque bytes, issued by `broker_id`.
    pub fn new(broker_id: &str) -> (h: AuthHandle)
        ensures
            h.broker_id@ == broker_id@,
    {
        AuthHandle { opaque: random_bytes(), broker_id: String::from_str(broker_id) }
    }
}

/// Issues, revokes and validates credential handles.
pub trait CredentialBroker {
    /// The handles issued so far, in the order of issue: for each, the agent
    /// and the scope it was issued for, and its opaque bytes.
    spec fn issued(&self) -> Seq<(AgentId, Seq<char>, Seq<u8>)>;

    /// Issues a handle for `agent` and `scope`; it is added to `issued`.
    fn issue(&mut self, agent: &AgentId, scope: &str) -> (h: AuthHandle)
        ensures
            final(self).issued() == old(self).issued().push((*agent, scope@, h.opaque@)),
    ;

    /// Revokes `handle`; nothing is issued.
    fn revoke(&mut self, handle: &AuthHandle) -> (r: bool)
        ensures
            final(self).issued() == old(self).issued(),
    ;

    fn validate(&self, handle: &AuthHandle) -> bool;
}

/// What the broker records of a handle.
#[derive(Debug, Clone)]
pub struct HandleMeta {
    pub agent_id: AgentId,
    pub scope: String,
    pub issued_at: i64,
    pub expires_at: Option<i64>,
    pub revoked: bool,
}

/// A handle's opaque bytes with its record.
#[derive(Debug, Clone)]
pub struct HandleRecord {
    pub opaque: [u8; 32],
    pub meta: HandleMeta,
}

pub struct MetaView {
    pub agent_id: AgentId,
    pub scope: Seq<char>,
    pub issued_at: i64,
    pub expires_at: Option<i64>,
    pub revoked: bool,
}

impl View for HandleMeta {
    type V = MetaView;

    open spec fn view(&self) -> MetaView {
        MetaView {
            agent_id: self.agent_id,
            scope: self.scope@,
            issued_at: self.issued_at,
            expires_at: self.expires_at,
            revoked: self.revoked,
        }
    }
}

/// In-memory broker: the records of the handles it issued.
pub struct InMemoryBroker {
    pub handles: Vec<HandleRecord>,
    /// Every handle issued, in order, with its agent and scope.
    pub log: Ghost<Seq<(AgentId, Seq<char>, Seq<u8>)>>,
}

impl Default for InMemoryBroker {
    fn default() -> (b: InMemoryBroker)
        ensures
            b.handles@.len() == 0,
            b.issued() == Seq::<(AgentId, Seq<char>, Seq<u8>)>::empty(),
    {
        InMemoryBroker::new()
    }
}

pub open spec fn broker_name() -> Seq<char> {
    seq!['i', 'n', '-', 'm', 'e', 'm', 'o', 'r', 'y', '-', 'b', 'r', 'o', 'k', 'e', 'r']
}

/// The record of the first entry of `recs` for the opaque bytes `key`.
pub open spec fn lookup(recs: Seq<HandleRecord>, key: Seq<u8>) -> Option<MetaView>
    decreases recs.len(),
{
    if recs.len() == 0 {
        None
    } else if recs[0].opaque@ == key {
        Some(recs[0].meta@)
    } else {
        lookup(recs.drop_first(), key)
    }
}

/// A handle is valid at `now` when it is known, not revoked and not expired.
pub open spec fn valid_at(recs: Seq<HandleRecord>, key: Seq<u8>, now: i64) -> bool {
    match lookup(recs, key) {
        Some(m) => !m.revoked && !(m.expires_at matches Some(e) && now > e),
        None => false,
    }
}

fn same_bytes(a: &[u8; 32], b: &[u8; 32]) -> (r: bool)
    ensures
        r == (a@ == b@),
{
    let mut i: usize = 0;
    while i < 32
        invariant
            i <= 32,
            a@.len() == 32,
            b@.len() == 32,
            forall|j: int| 0 <= j < i ==> a@[j] == b@[j],
        decreases 32 - i,
    {
        if a[i] != b[i] {
            return false;
        }
        i += 1;
    }
    assert(a@ =~= b@);
    true
}

proof fn lemma_lookup_skip(recs: Seq<HandleRecord>, key: Seq<u8>, i: int)
    requires
        0 <= i <= recs.len(),
        forall|j: int| 0 <= j < i ==> recs[j].opaque@ != key,
    ensures
        lookup(recs, key) == lookup(recs.skip(i), key),
    decreases i,
{
    if i > 0 {
        assert(recs.drop_first().skip(i - 1) =~= recs.skip(i));
        lemma_lookup_skip(recs.drop_first(), key, i - 1);
    } else {
        assert(recs.skip(0) =~= recs);
    }
}

proof fn lemma_lookup_update(recs: Seq<HandleRecord>, i: int, r: HandleRecord, key: Seq<u8>)
    requires
        0 <= i < recs.len(),
        r.opaque@ == recs[i].opaque@,
        forall|j: int| 0 <= j < i ==> recs[j].opaque@ != recs[i].opaque@,
    ensures
        lookup(recs.update(i, r), key) == (if key == r.opaque@ {
            Some(r.meta@)
        } else {
            lookup(recs, key)
        }),
    decreases i,
{
    let u = recs.update(i, r);
    if i > 0 {
        assert(u.drop_first() =~= recs.drop_first().update(i - 1, r));
        assert(u[0] == recs[0]);
        assert(recs[0].opaque@ != recs[i].opaque@);
        lemma_lookup_update(recs.drop_first(), i - 1, r, key);
    } else {
        assert(u.drop_first() =~= recs.drop_first());
        assert(u[0] == r);
    }
}

proof fn lemma_lookup_push(recs: Seq<HandleRecord>, r: HandleRecord, key: Seq<u8>)
    requires
        lookup(recs, r.opaque@) is None,
    ensures
        lookup(recs.push(r), key) == (if key == r.opaque@ {
            Some(r.meta@)
        } else {
            lookup(recs, key)
        }),
    decreases recs.len(),
{
    let p = recs.push(r);
    if recs.len() > 0 {
        assert(p.drop_first() =~= recs.drop_first().push(r));
        assert(p[0] == recs[0]);
        assert(recs[0].opaque@ != r.opaque@);
        assert(lookup(recs.drop_first(), r.opaque@) is None);
        lemma_lookup_push(recs.drop_first(), r, key);
        if recs[0].opaque@ == key {
            assert(lookup(p, key) == Some(recs[0].meta@));
        } else {
            assert(lookup(p, key) == lookup(p.drop_first(), key));
            assert(lookup(recs, key) == lookup(recs.drop_first(), key));
        }
    } else {
        assert(p.drop_first() =~= Seq::<HandleRecord>::empty());
        assert(p[0] == r);
        assert(lookup(p.drop_first(), key) is None);
    }
}

impl InMemoryBroker {
    /// A broker that has issued nothing.
    pub fn new() -> (b: InMemoryBroker)
        ensures
            b.handles@.len() == 0,
            b.issued() == Seq::<(AgentId, Seq<char>, Seq<u8>)>::empty(),
    {
        InMemoryBroker { handles: Vec::new(), log: Ghost(Seq::empty()) }
    }

    /// Index of the first record for `key`.
    fn find(&self, key: &[u8; 32]) -> (r: Option<usize>)
        ensures
            match r {
                Some(i) => i < self.handles@.len() && self.handles@[i as int].opaque@ == key@
                    && forall|j: int| 0 <= j < i ==> self.handles@[j].opaque@ != key@,
                None => forall|j: int| 0 <= j < self.handles@.len() ==> self.handles@[j].opaque@ != key@,
            },
    {
        let mut i: usize = 0;
        while i < self.handles.len()
            invariant
                i <= self.handles@.len(),
                forall|j: int| 0 <= j < i ==> self.handles@[j].opaque@ != key@,
            decreases self.handles.len() - i,
        {
            if same_bytes(&self.handles[i].opaque, key) {
                return Some(i);
            }
            i += 1;
        }
        None
    }

    /// Records `meta` for `key`: replaces the record of an existing entry, or adds one.
    fn store(&mut self, key: [u8; 32], meta: HandleMeta)
        ensures
            final(self).log == old(self).log,
            forall|k: Seq<u8>| #[trigger] lookup(final(self).handles@, k) == (if k == key@ {
                Some(meta@)
            } else {
                lookup(old(self).handles@, k)
            }),
    {
        let ghost recs = self.handles@;
        let r = HandleRecord { opaque: key, meta };
        match self.find(&key) {
            Some(i) => {
                self.handles.set(i, r);
                proof {
                    assert forall|k: Seq<u8>| #[trigger] lookup(self.handles@, k) == (if k == key@ {
                        Some(meta@)
                    } else {
                        lookup(recs, k)
                    }) by {
                        lemma_lookup_update(recs, i as int, r, k);
                    }
                }
            },
            None => {
                proof {
                    lemma_lookup_skip(recs, key@, recs.len() as int);
                }
                self.handles.push(r);
                proof {
                    assert forall|k: Seq<u8>| #[trigger] lookup(self.handles@, k) == (if k == key@ {
                        Some(meta@)
                    } else {
                        lookup(recs, k)
                    }) by {
                        lemma_lookup_push(recs, r, k);
                    }
                }
            },
        }
    }

    /// Validity of `handle` at the time `now`.
    pub fn validate_at(&self, handle: &AuthHandle, now: i64) -> (r: bool)
        ensures
            r == valid_at(self.handles@, handle.opaque@, now),
    {
        match self.find(&handle.opaque) {
            Some(i) => {
                proof {
                    lemma_lookup_skip(self.handles@, handle.opaque@, i as int);
                }
                let m = &self.handles[i].meta;
                if m.revoked {
                    return false;
                }
                match m.expires_at {
                    Some(e) => {
                        if now > e {
                            return false;
                        }
                    },
                    None => {},
                }
                true
            },
            None => {
                proof {
                    lemma_lookup_skip(self.handles@, handle.opaque@, self.handles@.len() as int);
                }
                false
            },
        }
    }
}

impl CredentialBroker for InMemoryBroker {
    open spec fn issued(&self) -> Seq<(AgentId, Seq<char>, Seq<u8>)> {
        self.log@
    }

    /// Issues a fresh handle for `agent` and `scope`: not revoked, without expiry.
    fn issue(&mut self, agent: &AgentId, scope: &str) -> (h: AuthHandle)
        ensures
            h.broker_id@ == broker_name(),
            lookup(final(self).handles@, h.opaque@) matches Some(m) && m.agent_id == *agent
                && m.scope == scope@ && m.expires_at is None && !m.revoked,
            forall|k: Seq<u8>|
                k != h.opaque@ ==> #[trigger] lookup(final(self).handles@, k) == lookup(old(self).handles@, k),
    {
        proof { reveal_strlit("in-memory-broker"); }
        let handle = AuthHandle::new("in-memory-broker");
        let meta = HandleMeta {
            agent_id: *agent,
            scope: String::from_str(scope),
            issued_at: now_millis(),
            expires_at: None,
            revoked: false,
        };
        self.store(handle.opaque, meta);
        proof {
            self.log@ = self.log@.push((*agent, scope@, handle.opaque@));
        }
        handle
    }

    /// Marks `handle` revoked; `false` (and no change) when it is unknown.
    fn revoke(&mut self, handle: &AuthHandle) -> (r: bool)
        ensures
            r == lookup(old(self).handles@, handle.opaque@) is Some,
            r ==> (lookup(final(self).handles@, handle.opaque@) matches Some(m) && m.revoked && ({
                let o = lookup(old(self).handles@, handle.opaque@)->0;
                m.agent_id == o.agent_id && m.scope == o.scope && m.issued_at == o.issued_at
                    && m.expires_at == o.expires_at
            })),
            forall|k: Seq<u8>|
                k != handle.opaque@ ==> #[trigger] lookup(final(self).handles@, k) == lookup(old(self).handles@, k),
            !r ==> final(self).handles@ == old(self).handles@,
    {
        let ghost recs = self.handles@;
        match self.find(&handle.opaque) {
            Some(i) => {
                proof {
                    lemma_lookup_skip(recs, handle.opaque@, i as int);
                }
                let mut rec = self.handles.remove(i);
                rec.meta.revoked = true;
                let ghost r = rec;
                self.handles.insert(i, rec);
                proof {
                    assert(self.handles@ =~= recs.update(i as int, r));
                    assert forall|k: Seq<u8>| #[trigger] lookup(self.handles@, k) == (if k == r.opaque@ {
                        Some(r.meta@)
                    } else {
                        lookup(recs, k)
                    }) by {
                        lemma_lookup_update(recs, i as int, r, k);
                    }
                }
                true
            },
            None => {
                proof {
                    lemma_lookup_skip(recs, handle.opaque@, recs.len() as int);
                }
                false
            },
        }
    }

    /// Whether `handle` is known, not revoked and not expired now.
    fn validate(&self, handle: &AuthHandle) -> (r: bool)
        ensures
            exists|now: i64| 0 <= now < crate::clock::TIMESTAMP_BOUND && r == #[trigger] valid_at(
                self.handles@,
                handle.opaque@,
                now,
            ),
    {
        let now = now_millis();
        self.validate_at(handle, now)
    }
}

/// A handle that is unknown or marked revoked is invalid at every time.
pub proof fn lemma_revoked_never_valid(recs: Seq<HandleRecord>, key: Seq<u8>, now: i64)
    requires
        lookup(recs, key) matches Some(m) ==> m.revoked,
    ensures
        !valid_at(recs, key, now),
{
}

/// A handle recorded as not revoked and without expiry is valid at every time:
/// a freshly issued handle validates until it is revoked.
pub proof fn lemma_issued_valid(recs: Seq<HandleRecord>, key: Seq<u8>, now: i64)
    requires
        lookup(recs, key) matches Some(m) && !m.revoked && m.expires_at is None,
    ensures
        valid_at(recs, key, now),
{
}

} // verus!

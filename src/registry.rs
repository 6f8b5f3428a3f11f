//! The proxy's per-tenant record of the backend's current session id, and
//! the decision a recovery takes once it holds the tenant's recovery lock.
use vstd::prelude::*;
use crate::text::same_text;

verus! {

/// The session id cached for one tenant.
#[derive(Debug, Clone)]
pub struct TenantSession {
    pub tenant: String,
    pub session_id: Option<String>,
}

/// Tenant to current backend session id.
#[derive(Debug, Clone)]
pub struct SessionRegistry {
    pub entries: Vec<TenantSession>,
}

pub open spec fn opt_view(o: Option<String>) -> Option<Seq<char>> {
    match o {
        Some(s) => Some(s@),
        None => None,
    }
}

/// The session id cached for `tenant`: that of its last record.
pub open spec fn lookup(s: Seq<TenantSession>, tenant: Seq<char>) -> Option<Seq<char>>
    decreases s.len(),
{
    if s.len() == 0 {
        None
    } else if s.last().tenant@ == tenant {
        opt_view(s.last().session_id)
    } else {
        lookup(s.drop_last(), tenant)
    }
}

/// Index of the last record of `tenant`, or -1.
pub open spec fn last_index(s: Seq<TenantSession>, tenant: Seq<char>) -> int
    decreases s.len(),
{
    if s.len() == 0 {
        -1
    } else if s.last().tenant@ == tenant {
        s.len() - 1
    } else {
        last_index(s.drop_last(), tenant)
    }
}

proof fn lemma_last_index(s: Seq<TenantSession>, tenant: Seq<char>)
    ensures
        -1 <= last_index(s, tenant) < s.len(),
        last_index(s, tenant) >= 0 ==> s[last_index(s, tenant)].tenant@ == tenant,
        forall|j: int| last_index(s, tenant) < j < s.len() ==> (#[trigger] s[j]).tenant@ != tenant,
    decreases s.len(),
{
    if s.len() > 0 && s.last().tenant@ != tenant {
        lemma_last_index(s.drop_last(), tenant);
        assert forall|j: int| last_index(s, tenant) < j < s.len() implies (#[trigger] s[j]).tenant@ != tenant by {
            if j < s.len() - 1 {
                assert(s[j] == s.drop_last()[j]);
            }
        }
    }
}

proof fn lemma_update_last(s: Seq<TenantSession>, k: int, e: TenantSession, tenant: Seq<char>)
    requires
        0 <= k < s.len(),
        s[k].tenant@ == tenant,
        e.tenant@ == tenant,
        forall|j: int| k < j < s.len() ==> (#[trigger] s[j]).tenant@ != tenant,
    ensures
        lookup(s.update(k, e), tenant) == opt_view(e.session_id),
        forall|u: Seq<char>| u != tenant ==> lookup(s.update(k, e), u) == #[trigger] lookup(s, u),
    decreases s.len(),
{
    let t = s.update(k, e);
    if k == s.len() - 1 {
        assert(t.drop_last() =~= s.drop_last());
    } else {
        assert(t.drop_last() =~= s.drop_last().update(k, e));
        assert(s.last().tenant@ != tenant);
        lemma_update_last(s.drop_last(), k, e, tenant);
        assert forall|u: Seq<char>| u != tenant implies lookup(s.update(k, e), u) == #[trigger] lookup(s, u) by {
            assert(t.last() == s.last());
            assert(lookup(t.drop_last(), u) == lookup(s.drop_last(), u));
        }
    }
}

impl SessionRegistry {
    /// A registry that knows no tenant.
    pub fn new() -> (r: SessionRegistry)
        ensures
            forall|t: Seq<char>| lookup(r.entries@, t) is None,
    {
        let r = SessionRegistry { entries: Vec::new() };
        assert forall|t: Seq<char>| lookup(r.entries@, t) is None by {}
        r
    }

    fn find_last(&self, tenant: &str) -> (r: Option<usize>)
        ensures
            match r {
                Some(k) => k as int == last_index(self.entries@, tenant@),
                None => last_index(self.entries@, tenant@) == -1,
            },
    {
        let mut i: usize = self.entries.len();
        assert(self.entries@.subrange(0, i as int) =~= self.entries@);
        while i > 0
            invariant
                i <= self.entries@.len(),
                last_index(self.entries@, tenant@) == last_index(self.entries@.subrange(0, i as int), tenant@),
            decreases i,
        {
            let ghost pre = self.entries@.subrange(0, i as int);
            assert(pre.drop_last() =~= self.entries@.subrange(0, i - 1));
            if same_text(self.entries[i - 1].tenant.as_str(), tenant) {
                return Some(i - 1);
            }
            i -= 1;
        }
        None
    }

    /// The session id cached for `tenant`.
    pub fn get_session_id(&self, tenant: &str) -> (r: Option<String>)
        ensures
            opt_view(r) == lookup(self.entries@, tenant@),
    {
        proof {
            lemma_lookup_at_last(self.entries@, tenant@);
            lemma_last_index(self.entries@, tenant@);
        }
        match self.find_last(tenant) {
            Some(k) => match &self.entries[k].session_id {
                Some(s) => Some(String::from_str(s.as_str())),
                None => None,
            },
            None => None,
        }
    }

    fn put(&mut self, tenant: &str, session_id: Option<String>)
        ensures
            lookup(final(self).entries@, tenant@) == opt_view(session_id),
            forall|u: Seq<char>| u != tenant@ ==> lookup(final(self).entries@, u) == #[trigger] lookup(old(self).entries@, u),
    {
        proof {
            lemma_last_index(self.entries@, tenant@);
        }
        let e = TenantSession { tenant: String::from_str(tenant), session_id };
        match self.find_last(tenant) {
            Some(k) => {
                proof {
                    lemma_update_last(self.entries@, k as int, e, tenant@);
                }
                self.entries.set(k, e);
            },
            None => {
                let ghost before = self.entries@;
                self.entries.push(e);
                proof {
                    assert(self.entries@.drop_last() =~= before);
                }
            },
        }
    }

    /// Caches `session_id` as the tenant's current session.
    pub fn set_session_id(&mut self, tenant: &str, session_id: String)
        ensures
            lookup(final(self).entries@, tenant@) == Some(session_id@),
            forall|u: Seq<char>| u != tenant@ ==> lookup(final(self).entries@, u) == #[trigger] lookup(old(self).entries@, u),
    {
        self.put(tenant, Some(session_id));
    }

    /// Forgets the tenant's session.
    pub fn invalidate(&mut self, tenant: &str)
        ensures
            lookup(final(self).entries@, tenant@) is None,
            forall|u: Seq<char>| u != tenant@ ==> lookup(final(self).entries@, u) == #[trigger] lookup(old(self).entries@, u),
    {
        self.put(tenant, None);
    }
}

proof fn lemma_lookup_at_last(s: Seq<TenantSession>, tenant: Seq<char>)
    ensures
        last_index(s, tenant) == -1 ==> lookup(s, tenant) is None,
        last_index(s, tenant) >= 0 ==> lookup(s, tenant) == opt_view(s[last_index(s, tenant)].session_id),
    decreases s.len(),
{
    if s.len() > 0 && s.last().tenant@ != tenant {
        lemma_lookup_at_last(s.drop_last(), tenant);
        lemma_last_index(s.drop_last(), tenant);
        if last_index(s, tenant) >= 0 {
            assert(s[last_index(s, tenant)] == s.drop_last()[last_index(s, tenant)]);
        }
    }
}

/// What a request that lost its session does once it holds the tenant's
/// recovery lock.
#[derive(Debug, Clone, PartialEq, Eq)]
pub enum RecoveryPlan {
    /// Another request recovered meanwhile: retry with its session id.
    Reuse(String),
    /// Run the synthetic `initialize` handshake.
    Initialize,
}

/// The plan under the lock: reuse a session id cached since the loss was
/// detected, else initialize a new one.
pub fn recovery_plan(registry: &SessionRegistry, tenant: &str) -> (r: RecoveryPlan)
    ensures
        match lookup(registry.entries@, tenant@) {
            Some(s) => r matches RecoveryPlan::Reuse(x) && x@ == s,
            None => r == RecoveryPlan::Initialize,
        },
{
    match registry.get_session_id(tenant) {
        Some(s) => RecoveryPlan::Reuse(s),
        None => RecoveryPlan::Initialize,
    }
}

/// The session id cached for one tenant across recoveries that hold the
/// recovery lock one after another: each that finds none initializes and
/// caches the id it gets; each that finds one reuses it.
pub open spec fn recovery_run(start: Option<Seq<char>>, minted: Seq<Seq<char>>, n: nat) -> (Option<Seq<char>>, nat)
    decreases n,
{
    if n == 0 {
        (start, 0)
    } else {
        let (cached, inits) = recovery_run(start, minted, (n - 1) as nat);
        match cached {
            Some(s) => (Some(s), inits),
            None => (Some(minted[n - 1]), inits + 1),
        }
    }
}

/// Recoveries serialized by the tenant's lock within one window (the cached id
/// was cleared once, before the first of them) run exactly one synthetic
/// `initialize`, whose session id all of them then use.
pub proof fn lemma_one_initialize_per_window(minted: Seq<Seq<char>>, n: nat)
    requires
        n >= 1,
        minted.len() >= n,
    ensures
        recovery_run(None, minted, n) == (Some(minted[0]), 1nat),
    decreases n,
{
    assert(recovery_run(None, minted, 0) == (None::<Seq<char>>, 0nat));
    if n > 1 {
        lemma_one_initialize_per_window(minted, (n - 1) as nat);
    }
}

} // verus!

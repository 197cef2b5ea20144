//! Update orchestration policy: which list sources a sync pass runs and
//! in what order.  Executing the pass — fetching each source and
//! upserting its records into storage — is the caller's part; a
//! source-level failure there aborts the pass at that source
//! (fail-fast), it is not downgraded to best-effort aggregation.

use vstd::prelude::*;

verus! {

/// One of the three list sources a sync pass can run.
#[derive(Clone, Copy, PartialEq, Eq, Structural, Debug)]
pub enum Source {
    GitHub,
    Registry,
    Local,
}

/// The three independent switches of a sync pass, all enabled by
/// default.
#[derive(Clone, Copy, PartialEq, Eq, Structural, Debug)]
pub struct UpdateLists {
    pub github: bool,
    pub registry: bool,
    pub local: bool,
}

/// The sources a pass with switches `u` runs, in the fixed order
/// GitHub, then registry, then local.
pub open spec fn plan_of(u: UpdateLists) -> Seq<Source> {
    (if u.github {
        seq![Source::GitHub]
    } else {
        Seq::empty()
    }) + (if u.registry {
        seq![Source::Registry]
    } else {
        Seq::empty()
    }) + (if u.local {
        seq![Source::Local]
    } else {
        Seq::empty()
    })
}

impl Default for UpdateLists {
    fn default() -> (r: Self)
        ensures
            r.github && r.registry && r.local,
    {
        UpdateLists { github: true, registry: true, local: true }
    }
}

impl UpdateLists {
    /// The ordered plan of this pass: exactly the enabled sources, in
    /// the fixed order GitHub, registry, local.  The caller runs them in
    /// this order and stops at the first source-level failure.
    pub fn apply(self) -> (plan: Vec<Source>)
        ensures
            plan@ == plan_of(self),
    {
        let mut plan: Vec<Source> = Vec::new();
        if self.github {
            plan.push(Source::GitHub);
        }
        if self.registry {
            plan.push(Source::Registry);
        }
        if self.local {
            plan.push(Source::Local);
        }
        proof {
            assert(plan@ =~= plan_of(self));
        }
        plan
    }
}

/// With only the local switch enabled, a pass never involves the GitHub
/// or registry sources: its plan is exactly the local source.
pub proof fn lemma_local_only_plan(u: UpdateLists)
    requires
        !u.github,
        !u.registry,
    ensures
        forall|i: int| 0 <= i < plan_of(u).len() ==> plan_of(u)[i] == Source::Local,
        u.local ==> plan_of(u) == seq![Source::Local],
        !u.local ==> plan_of(u) == Seq::<Source>::empty(),
{
    if u.local {
        assert(plan_of(u) =~= seq![Source::Local]);
    } else {
        assert(plan_of(u) =~= Seq::<Source>::empty());
    }
}

/// The plan keeps the fixed order: GitHub never comes after registry or
/// local, and registry never comes after local.
pub proof fn lemma_plan_order(u: UpdateLists, i: int, j: int)
    requires
        0 <= i < j < plan_of(u).len(),
    ensures
        plan_of(u)[i] != plan_of(u)[j],
        plan_of(u)[j] != Source::GitHub,
        plan_of(u)[i] != Source::Local,
{
}

} // verus!

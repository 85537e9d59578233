use vstd::prelude::*;

verus! {

/// How the processing of one member ended.
#[derive(PartialEq, Eq, Structural, Clone, Copy, Debug)]
pub enum Outcome {
    /// Fetched, converted and tagged.
    Written,
    /// Already present; tags rewritten.
    Retagged,
    /// Already present; left alone.
    Skipped,
    /// A per-track fatal error; the walk goes on.
    Failed,
}

/// The member to process next, given the outcomes recorded so far.
pub open spec fn next_spec(members: Seq<u128>, outcomes: Seq<Outcome>) -> Option<u128> {
    if outcomes.len() < members.len() {
        Some(members[outcomes.len() as int])
    } else {
        None
    }
}

/// Number of `o` in `s`.
pub open spec fn count(s: Seq<Outcome>, o: Outcome) -> nat
    decreases s.len(),
{
    if s.len() == 0 {
        0
    } else {
        count(s.drop_last(), o) + if s.last() == o {
            1nat
        } else {
            0nat
        }
    }
}

proof fn lemma_count_bound(s: Seq<Outcome>, o: Outcome)
    ensures
        count(s, o) <= s.len(),
    decreases s.len(),
{
    if s.len() > 0 {
        lemma_count_bound(s.drop_last(), o);
    }
}

/// Totals of a walk.
#[derive(PartialEq, Eq, Structural, Clone, Copy, Debug)]
pub struct Tally {
    pub written: usize,
    pub retagged: usize,
    pub skipped: usize,
    pub failed: usize,
}

/// Walks a collection's members in order, one outcome per member.
pub struct Walk {
    members: Vec<u128>,
    outcomes: Vec<Outcome>,
}

impl Walk {
    pub closed spec fn members(&self) -> Seq<u128> {
        self.members@
    }

    pub closed spec fn outcomes(&self) -> Seq<Outcome> {
        self.outcomes@
    }

    pub closed spec fn wf(&self) -> bool {
        self.outcomes@.len() <= self.members@.len()
    }

    pub fn new(members: Vec<u128>) -> (r: Walk)
        ensures
            r.wf(),
            r.members() == members@,
            r.outcomes() == Seq::<Outcome>::empty(),
    {
        Walk { members, outcomes: Vec::new() }
    }

    /// The member to process next, or none once every member has an outcome.
    pub fn next_member(&self) -> (r: Option<u128>)
        requires
            self.wf(),
        ensures
            r == next_spec(self.members(), self.outcomes()),
    {
        if self.outcomes.len() < self.members.len() {
            Some(self.members[self.outcomes.len()])
        } else {
            None
        }
    }

    /// Records how the current member ended, whatever that was.
    pub fn record(&mut self, o: Outcome)
        requires
            old(self).wf(),
            old(self).outcomes().len() < old(self).members().len(),
        ensures
            final(self).wf(),
            final(self).members() == old(self).members(),
            final(self).outcomes() == old(self).outcomes().push(o),
    {
        self.outcomes.push(o);
    }

    pub fn outcomes_vec(&self) -> (r: Vec<Outcome>)
        ensures
            r@ == self.outcomes(),
    {
        self.outcomes.clone()
    }

    /// Counts the recorded outcomes of each kind.
    pub fn tally(&self) -> (r: Tally)
        requires
            self.wf(),
        ensures
            r.written == count(self.outcomes(), Outcome::Written),
            r.retagged == count(self.outcomes(), Outcome::Retagged),
            r.skipped == count(self.outcomes(), Outcome::Skipped),
            r.failed == count(self.outcomes(), Outcome::Failed),
    {
        let mut t = Tally { written: 0, retagged: 0, skipped: 0, failed: 0 };
        let mut k: usize = 0;
        while k < self.outcomes.len()
            invariant
                k <= self.outcomes@.len(),
                t.written == count(self.outcomes@.take(k as int), Outcome::Written),
                t.retagged == count(self.outcomes@.take(k as int), Outcome::Retagged),
                t.skipped == count(self.outcomes@.take(k as int), Outcome::Skipped),
                t.failed == count(self.outcomes@.take(k as int), Outcome::Failed),
            decreases self.outcomes.len() - k,
        {
            proof {
                let s = self.outcomes@.take(k + 1);
                assert(s.drop_last() == self.outcomes@.take(k as int));
                lemma_count_bound(self.outcomes@.take(k as int), Outcome::Written);
                lemma_count_bound(self.outcomes@.take(k as int), Outcome::Retagged);
                lemma_count_bound(self.outcomes@.take(k as int), Outcome::Skipped);
                lemma_count_bound(self.outcomes@.take(k as int), Outcome::Failed);
            }
            match self.outcomes[k] {
                Outcome::Written => t.written = t.written + 1,
                Outcome::Retagged => t.retagged = t.retagged + 1,
                Outcome::Skipped => t.skipped = t.skipped + 1,
                Outcome::Failed => t.failed = t.failed + 1,
            }
            k += 1;
        }
        assert(self.outcomes@.take(self.outcomes@.len() as int) == self.outcomes@);
        t
    }
}

/// A failed member does not end the walk: after any outcome for member `k`,
/// the next member offered is member `k + 1`, and every member is offered in
/// order until all have an outcome.
pub proof fn lemma_failure_does_not_stop_walk(members: Seq<u128>, outcomes: Seq<Outcome>, o: Outcome)
    requires
        outcomes.len() < members.len(),
    ensures
        outcomes.len() + 1 < members.len() ==> next_spec(members, outcomes.push(o)) == Some(
            members[outcomes.len() as int + 1],
        ),
        outcomes.len() + 1 == members.len() ==> next_spec(members, outcomes.push(o)) is None,
{
}

} // verus!

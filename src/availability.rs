use vstd::prelude::*;

verus! {

/// What the caller does next while resolving a playable track.
#[derive(PartialEq, Eq, Structural, Clone, Copy, Debug)]
pub enum Step {
    /// The record examined last is playable: use it.
    Use,
    /// Fetch the record of this alternative and report its restriction state.
    Fetch(u128),
    /// No listed alternative is playable.
    GiveUp,
}

/// The step that follows a record with the given restriction state, when
/// `next` is the position of the next untried alternative.
pub open spec fn step_spec(alts: Seq<u128>, next: int, restricted: bool) -> Step {
    if !restricted {
        Step::Use
    } else if 0 <= next < alts.len() {
        Step::Fetch(alts[next])
    } else {
        Step::GiveUp
    }
}

/// Substitutes a listed alternative for a track that is restricted in the
/// requester's region: alternatives are tried one at a time, in listed order.
pub struct Resolver {
    alternatives: Vec<u128>,
    next: usize,
}

impl Resolver {
    pub closed spec fn alternatives(&self) -> Seq<u128> {
        self.alternatives@
    }

    /// Position of the next alternative to fetch.
    pub closed spec fn next(&self) -> int {
        self.next as int
    }

    pub closed spec fn wf(&self) -> bool {
        self.next <= self.alternatives@.len()
    }

    /// Starts from the primary record's restriction state and its list of
    /// alternatives.
    pub fn start(restricted: bool, alternatives: Vec<u128>) -> (r: (Resolver, Step))
        ensures
            r.0.wf(),
            r.0.alternatives() == alternatives@,
            r.1 == step_spec(alternatives@, 0, restricted),
            r.0.next() == (if r.1 is Fetch { 1int } else { 0int }),
    {
        let mut res = Resolver { alternatives, next: 0 };
        let step = res.advance(restricted);
        (res, step)
    }

    /// Reports the restriction state of the alternative fetched last.
    pub fn on_candidate(&mut self, restricted: bool) -> (r: Step)
        requires
            old(self).wf(),
        ensures
            final(self).wf(),
            final(self).alternatives() == old(self).alternatives(),
            r == step_spec(old(self).alternatives(), old(self).next(), restricted),
            final(self).next() == old(self).next() + (if r is Fetch { 1int } else { 0int }),
    {
        self.advance(restricted)
    }

    fn advance(&mut self, restricted: bool) -> (r: Step)
        requires
            old(self).wf(),
        ensures
            final(self).wf(),
            final(self).alternatives() == old(self).alternatives(),
            r == step_spec(old(self).alternatives(), old(self).next(), restricted),
            final(self).next() == old(self).next() + (if r is Fetch { 1int } else { 0int }),
    {
        if !restricted {
            Step::Use
        } else if self.next < self.alternatives.len() {
            let id = self.alternatives[self.next];
            self.next = self.next + 1;
            Step::Fetch(id)
        } else {
            Step::GiveUp
        }
    }
}

/// The alternatives fetched, and the position of the one used, when the
/// resolver is driven from `next` after a restricted record and the
/// alternatives carry the restriction states `flags`.
pub open spec fn trace(alts: Seq<u128>, flags: Seq<bool>, next: int) -> (Seq<u128>, Option<int>)
    decreases alts.len() - next,
{
    if 0 <= next < alts.len() && next < flags.len() {
        match step_spec(alts, next, true) {
            Step::Fetch(id) => if step_spec(alts, next + 1, flags[next]) == Step::Use {
                (seq![id], Some(next))
            } else {
                let t = trace(alts, flags, next + 1);
                (seq![id] + t.0, t.1)
            },
            _ => (Seq::empty(), None),
        }
    } else {
        (Seq::empty(), None)
    }
}

proof fn lemma_trace_finds(alts: Seq<u128>, flags: Seq<bool>, i: int, k: int)
    requires
        flags.len() == alts.len(),
        0 <= k <= i < alts.len(),
        !flags[i],
        forall|j: int| 0 <= j < i ==> flags[j],
    ensures
        trace(alts, flags, k) == (alts.subrange(k, i + 1), Some(i)),
    decreases i - k,
{
    if k < i {
        lemma_trace_finds(alts, flags, i, k + 1);
        assert(seq![alts[k]] + alts.subrange(k + 1, i + 1) == alts.subrange(k, i + 1));
    } else {
        assert(seq![alts[k]] == alts.subrange(k, i + 1));
    }
}

proof fn lemma_trace_exhausts(alts: Seq<u128>, flags: Seq<bool>, k: int)
    requires
        flags.len() == alts.len(),
        0 <= k <= alts.len(),
        forall|j: int| 0 <= j < flags.len() ==> flags[j],
    ensures
        trace(alts, flags, k) == (alts.subrange(k, alts.len() as int), None::<int>),
    decreases alts.len() - k,
{
    if k < alts.len() {
        lemma_trace_exhausts(alts, flags, k + 1);
        assert(seq![alts[k]] + alts.subrange(k + 1, alts.len() as int) == alts.subrange(
            k,
            alts.len() as int,
        ));
    } else {
        assert(alts.subrange(k, alts.len() as int) == Seq::<u128>::empty());
    }
}

/// For a restricted track, the first playable alternative in listed order
/// is the one used, and no alternative after it is ever fetched.
pub proof fn lemma_first_available_alternative_wins(alts: Seq<u128>, flags: Seq<bool>, i: int)
    requires
        flags.len() == alts.len(),
        0 <= i < alts.len(),
        !flags[i],
        forall|j: int| 0 <= j < i ==> flags[j],
    ensures
        trace(alts, flags, 0) == (alts.take(i + 1), Some(i)),
{
    lemma_trace_finds(alts, flags, i, 0);
    assert(alts.subrange(0, i + 1) == alts.take(i + 1));
}

/// When every alternative is restricted, each is fetched once, in order, and
/// none is used.
pub proof fn lemma_no_playable_alternative(alts: Seq<u128>, flags: Seq<bool>)
    requires
        flags.len() == alts.len(),
        forall|j: int| 0 <= j < flags.len() ==> flags[j],
    ensures
        trace(alts, flags, 0) == (alts, None::<int>),
{
    lemma_trace_exhausts(alts, flags, 0);
    assert(alts.subrange(0, alts.len() as int) == alts);
}

} // verus!

use vstd::prelude::*;
use crate::error::SwarmError;
use crate::ledger::Ledger;
use crate::roster::Roster;

verus! {

/// The collection point of a swarm: it takes each task's outcome once, in the
/// order the outcomes arrive, which need not be the order of launch.
pub struct Collector<T, E> {
    roster: Roster,
    outcomes: Vec<Result<T, E>>,
}

impl<T, E> Collector<T, E> {
    /// The number of tasks in the swarm.
    pub closed spec fn width(&self) -> nat {
        self.roster.width()
    }

    /// The outcomes received so far, in order of arrival.
    pub closed spec fn outcomes(&self) -> Seq<Result<T, E>> {
        self.outcomes@
    }

    /// The launch indices of the tasks whose outcomes arrived, in order of
    /// arrival.
    pub closed spec fn arrivals(&self) -> Seq<nat> {
        self.roster.order()
    }

    /// Whether every task's outcome has arrived.
    pub open spec fn complete(&self) -> bool {
        self.outcomes().len() == self.width()
    }

    pub closed spec fn wf(&self) -> bool {
        &&& self.roster.wf()
        &&& self.outcomes@.len() == self.roster.order().len()
    }

    /// A collection point for `width` tasks, with nothing received.
    pub fn new(width: usize) -> (r: Collector<T, E>)
        ensures
            r.wf(),
            r.width() == width,
            r.outcomes() == Seq::<Result<T, E>>::empty(),
            r.arrivals() == Seq::<nat>::empty(),
    {
        Collector { roster: Roster::new(width), outcomes: Vec::new() }
    }

    /// Takes the outcome of task `index` (counted from 0) and places it after
    /// those received before. A task outside the swarm, or one whose outcome
    /// arrived already, is refused and nothing changes.
    pub fn receive(&mut self, index: usize, outcome: Result<T, E>) -> (r: Result<(), SwarmError>)
        requires
            old(self).wf(),
        ensures
            final(self).wf(),
            final(self).width() == old(self).width(),
            index >= old(self).width() ==> r == Err::<(), SwarmError>(SwarmError::TaskOutOfRange),
            index < old(self).width() && old(self).arrivals().contains(index as nat) ==> r == Err::<
                (),
                SwarmError,
            >(SwarmError::DuplicateTask),
            index < old(self).width() && !old(self).arrivals().contains(index as nat) ==> r is Ok,
            r is Ok ==> final(self).outcomes() == old(self).outcomes().push(outcome)
                && final(self).arrivals() == old(self).arrivals().push(index as nat),
            r is Err ==> final(self).outcomes() == old(self).outcomes() && final(self).arrivals()
                == old(self).arrivals(),
    {
        let checked = self.roster.check_in(index);
        match checked {
            Ok(()) => {
                self.outcomes.push(outcome);
                Ok(())
            },
            Err(e) => Err(e),
        }
    }

    /// Whether every task's outcome has arrived.
    pub fn is_complete(&self) -> (r: bool)
        requires
            self.wf(),
        ensures
            r == self.complete(),
    {
        self.roster.is_full()
    }

    /// Ends the run: the outcomes in order of arrival when every task of the
    /// swarm has both logged its line in `ledger` and delivered its outcome
    /// here, and `Incomplete` otherwise. The run succeeds or fails as a whole.
    pub fn finish(self, ledger: &Ledger) -> (r: Result<Vec<Result<T, E>>, SwarmError>)
        requires
            self.wf(),
            ledger.wf(),
        ensures
            r is Ok <==> (self.complete() && ledger.complete() && ledger.width() == self.width()),
            r matches Ok(v) ==> v@ == self.outcomes() && v@.len() == self.width(),
            r is Err ==> r == Err::<Vec<Result<T, E>>, SwarmError>(SwarmError::Incomplete),
    {
        if self.roster.is_full() && ledger.is_complete() && ledger.task_count() == self.roster.task_count() {
            Ok(self.outcomes)
        } else {
            Err(SwarmError::Incomplete)
        }
    }

    /// Once every task's outcome has arrived, there are exactly as many
    /// outcomes as tasks, one from each task: the arrival order is some order
    /// of all launch indices, each once.
    pub proof fn lemma_full_collection(&self)
        requires
            self.wf(),
            self.complete(),
        ensures
            self.outcomes().len() == self.width(),
            self.arrivals().len() == self.width(),
            self.arrivals().no_duplicates(),
            forall|i: nat| i < self.width() ==> #[trigger] self.arrivals().contains(i),
    {
        self.roster.lemma_order();
    }

    /// When every outcome that arrived is the success `Ok(v)`, the collection
    /// is `Ok(v)` once for each of them and nothing else.
    pub proof fn lemma_all_equal(&self, v: T)
        requires
            self.wf(),
            forall|k: int| 0 <= k < self.outcomes().len() ==> #[trigger] self.outcomes()[k] == Ok::<
                T,
                E,
            >(v),
        ensures
            self.outcomes() == Seq::new(self.outcomes().len(), |k: int| Ok::<T, E>(v)),
    {
        assert(self.outcomes() =~= Seq::new(self.outcomes().len(), |k: int| Ok::<T, E>(v)));
    }
}

/// A swarm of no tasks is complete from the start: the collection and the sink
/// are both empty, so the run ends at once with no outcomes and no lines.
pub proof fn lemma_empty_swarm<T, E>(collector: &Collector<T, E>, ledger: &Ledger)
    requires
        collector.wf(),
        ledger.wf(),
        collector.width() == 0,
        ledger.width() == 0,
    ensures
        collector.complete(),
        ledger.complete(),
        collector.outcomes().len() == 0,
        ledger.lines().len() == 0,
{
    collector.roster.lemma_order();
    ledger.lemma_bounded();
}

} // verus!

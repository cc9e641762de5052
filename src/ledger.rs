use vstd::prelude::*;
use crate::entry::{entry_text, json_quoted, line_text, log_line, rendered_view};
use crate::error::SwarmError;
use crate::roster::Roster;

verus! {

/// A task number (from 1) and the outcome it logged.
pub type Entry = (nat, Result<Seq<char>, Seq<char>>);

/// The record of what the sink has been given: at most one line per task,
/// each naming the task that wrote it.
pub struct Ledger {
    roster: Roster,
    entries: Ghost<Seq<Entry>>,
}

impl Ledger {
    /// The number of tasks whose lines the sink takes.
    pub closed spec fn width(&self) -> nat {
        self.roster.width()
    }

    /// The entries appended so far, in the order of appending.
    pub closed spec fn entries(&self) -> Seq<Entry> {
        self.entries@
    }

    /// The lines the sink holds, in the order of appending.
    pub open spec fn lines(&self) -> Seq<Seq<char>> {
        self.entries().map_values(|e: Entry| entry_text(e.0, e.1))
    }

    /// The task numbers of the lines, in the order of appending.
    pub open spec fn tasks(&self) -> Seq<nat> {
        self.entries().map_values(|e: Entry| e.0)
    }

    /// Whether every task has logged its line.
    pub open spec fn complete(&self) -> bool {
        self.entries().len() == self.width()
    }

    pub closed spec fn wf(&self) -> bool {
        &&& self.roster.wf()
        &&& self.entries@.len() == self.roster.order().len()
        &&& forall|k: int|
            0 <= k < self.entries@.len() ==> #[trigger] self.entries@[k].0 == self.roster.order()[k]
                + 1
    }

    /// An empty sink for a swarm of `width` tasks: a fresh run starts from no
    /// lines at all.
    pub fn new(width: usize) -> (r: Ledger)
        ensures
            r.wf(),
            r.width() == width,
            r.entries() == Seq::<Entry>::empty(),
    {
        Ledger { roster: Roster::new(width), entries: Ghost(Seq::empty()) }
    }

    /// Admits the line of task `index` (counted from 0), recording `rendered`
    /// as its outcome, and returns the line to append. A task outside the
    /// swarm, or one that has logged already, is refused and nothing changes.
    pub fn append(&mut self, index: usize, rendered: &Result<String, String>) -> (r: Result<
        String,
        SwarmError,
    >)
        requires
            old(self).wf(),
        ensures
            final(self).wf(),
            final(self).width() == old(self).width(),
            index >= old(self).width() ==> r == Err::<String, SwarmError>(
                SwarmError::TaskOutOfRange,
            ),
            index < old(self).width() && old(self).tasks().contains((index + 1) as nat) ==> r == Err::<
                String,
                SwarmError,
            >(SwarmError::DuplicateTask),
            index < old(self).width() && !old(self).tasks().contains((index + 1) as nat) ==> r is Ok,
            r matches Ok(line) ==> line@ == entry_text((index + 1) as nat, rendered_view(*rendered))
                && final(self).entries() == old(self).entries().push(
                ((index + 1) as nat, rendered_view(*rendered)),
            ),
            r is Err ==> final(self).entries() == old(self).entries(),
    {
        proof {
            self.lemma_tasks();
            self.roster.lemma_order();
        }
        let checked = self.roster.check_in(index);
        match checked {
            Ok(()) => {
                let line = log_line(index + 1, rendered);
                self.entries = Ghost(self.entries@.push(((index + 1) as nat, rendered_view(*rendered))));
                Ok(line)
            },
            Err(e) => Err(e),
        }
    }

    /// The number of tasks whose lines the sink takes.
    pub fn task_count(&self) -> (r: usize)
        ensures
            r == self.width(),
    {
        self.roster.task_count()
    }

    /// Whether every task has logged its line.
    pub fn is_complete(&self) -> (r: bool)
        requires
            self.wf(),
        ensures
            r == self.complete(),
    {
        self.roster.is_full()
    }

    /// The task numbers are the roster's indices shifted by one.
    proof fn lemma_tasks(&self)
        requires
            self.wf(),
        ensures
            forall|t: nat| #[trigger]
                self.tasks().contains(t) <==> (t >= 1 && self.roster.order().contains(
                    (t - 1) as nat,
                )),
    {
        let o = self.roster.order();
        assert forall|t: nat| #[trigger]
            self.tasks().contains(t) <==> (t >= 1 && o.contains((t - 1) as nat)) by {
            if self.tasks().contains(t) {
                let k = choose|k: int| 0 <= k < self.tasks().len() && self.tasks()[k] == t;
                assert(self.entries@[k].0 == o[k] + 1);
                assert(o[k] == (t - 1) as nat);
            }
            if t >= 1 && o.contains((t - 1) as nat) {
                let k = choose|k: int| 0 <= k < o.len() && o[k] == (t - 1) as nat;
                assert(self.entries@[k].0 == o[k] + 1);
                assert(self.tasks()[k] == t);
            }
        }
    }

    /// The sink never holds more lines than there are tasks.
    pub proof fn lemma_bounded(&self)
        requires
            self.wf(),
        ensures
            self.entries().len() <= self.width(),
    {
        self.roster.lemma_order();
    }

    /// Once every task has logged, the sink holds exactly one line per task:
    /// as many lines as tasks, each the entry of a task number in
    /// `1 ..= width`, every such number on one line and none on two,
    /// whatever order the tasks finished in.
    pub proof fn lemma_complete_sink(&self)
        requires
            self.wf(),
            self.complete(),
        ensures
            self.lines().len() == self.width(),
            forall|k: int|
                0 <= k < self.lines().len() ==> 1 <= #[trigger] self.tasks()[k] <= self.width()
                    && self.lines()[k] == entry_text(self.tasks()[k], self.entries()[k].1),
            self.tasks().no_duplicates(),
            forall|t: nat| 1 <= t <= self.width() ==> #[trigger] self.tasks().contains(t),
    {
        self.roster.lemma_order();
        self.lemma_tasks();
        let o = self.roster.order();
        assert forall|k: int| 0 <= k < self.lines().len() implies 1 <= #[trigger] self.tasks()[k]
            <= self.width() by {
            assert(self.entries@[k].0 == o[k] + 1);
            assert(o[k] < self.width());
        }
        assert forall|a: int, b: int|
            0 <= a < self.tasks().len() && 0 <= b < self.tasks().len() && a != b implies
            self.tasks()[a] != self.tasks()[b] by {
            assert(self.entries@[a].0 == o[a] + 1);
            assert(self.entries@[b].0 == o[b] + 1);
            assert(o[a] != o[b]);
        }
        assert forall|t: nat| 1 <= t <= self.width() implies #[trigger] self.tasks().contains(t) by {
            assert(o.contains((t - 1) as nat));
        }
    }

    /// When every outcome logged is a success, every line is a success line:
    /// status `success`, carrying the response under `response`.
    pub proof fn lemma_all_succeeded(&self)
        requires
            self.wf(),
            forall|k: int| 0 <= k < self.entries().len() ==> #[trigger] self.entries()[k].1 is Ok,
        ensures
            forall|k: int|
                0 <= k < self.lines().len() ==> #[trigger] self.lines()[k] == line_text(
                    self.tasks()[k],
                    true,
                    self.entries()[k].1->Ok_0,
                ),
    {
        assert forall|k: int| 0 <= k < self.lines().len() implies #[trigger] self.lines()[k]
            == line_text(self.tasks()[k], true, self.entries()[k].1->Ok_0) by {
            assert(self.entries()[k].1 is Ok);
        }
    }

    /// When every outcome logged is a failure, no line reports a success:
    /// each has status `error` and carries the quoted error under `error`.
    pub proof fn lemma_all_failed(&self)
        requires
            self.wf(),
            forall|k: int| 0 <= k < self.entries().len() ==> #[trigger] self.entries()[k].1 is Err,
        ensures
            forall|k: int|
                0 <= k < self.lines().len() ==> #[trigger] self.lines()[k] == line_text(
                    self.tasks()[k],
                    false,
                    json_quoted(self.entries()[k].1->Err_0),
                ),
    {
        assert forall|k: int| 0 <= k < self.lines().len() implies #[trigger] self.lines()[k]
            == line_text(self.tasks()[k], false, json_quoted(self.entries()[k].1->Err_0)) by {
            assert(self.entries()[k].1 is Err);
        }
    }
}

} // verus!

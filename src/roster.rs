use vstd::prelude::*;
use vstd::set_lib::{lemma_int_range, lemma_len_subset, set_int_range};
use crate::error::SwarmError;

verus! {

/// Which of the tasks `0 .. width` have reported, and in what order: each
/// task may report once.
pub struct Roster {
    width: usize,
    seen: Vec<bool>,
    order: Vec<usize>,
}

impl Roster {
    /// The number of tasks in the swarm.
    pub closed spec fn width(&self) -> nat {
        self.width as nat
    }

    /// The indices of the tasks that have reported, in order of report.
    pub closed spec fn order(&self) -> Seq<nat> {
        self.order@.map_values(|i: usize| i as nat)
    }

    pub closed spec fn wf(&self) -> bool {
        &&& self.seen@.len() == self.width
        &&& forall|k: int| 0 <= k < self.order@.len() ==> #[trigger] self.order@[k] < self.width
        &&& forall|i: int|
            0 <= i < self.width ==> (#[trigger] self.seen@[i] <==> self.order@.contains(i as usize))
        &&& self.order@.no_duplicates()
    }

    /// A roster of `width` tasks, none of which has reported.
    pub fn new(width: usize) -> (r: Roster)
        ensures
            r.wf(),
            r.width() == width,
            r.order() == Seq::<nat>::empty(),
    {
        let mut seen: Vec<bool> = Vec::new();
        let mut i: usize = 0;
        while i < width
            invariant
                i <= width,
                seen@.len() == i,
                forall|j: int| 0 <= j < i ==> !#[trigger] seen@[j],
            decreases width - i,
        {
            seen.push(false);
            i = i + 1;
        }
        let r = Roster { width, seen, order: Vec::new() };
        assert(r.order() =~= Seq::<nat>::empty());
        r
    }

    /// Records that task `index` has reported. Fails, changing nothing, when
    /// the index lies outside the swarm or the task has already reported.
    pub fn check_in(&mut self, index: usize) -> (r: Result<(), SwarmError>)
        requires
            old(self).wf(),
        ensures
            final(self).wf(),
            final(self).width() == old(self).width(),
            index >= old(self).width() ==> r == Err::<(), SwarmError>(SwarmError::TaskOutOfRange),
            index < old(self).width() && old(self).order().contains(index as nat) ==> r == Err::<
                (),
                SwarmError,
            >(SwarmError::DuplicateTask),
            index < old(self).width() && !old(self).order().contains(index as nat) ==> r == Ok::<
                (),
                SwarmError,
            >(()),
            r is Ok ==> final(self).order() == old(self).order().push(index as nat),
            r is Err ==> final(self).order() == old(self).order(),
    {
        if index >= self.width {
            return Err(SwarmError::TaskOutOfRange);
        }
        if self.seen[index] {
            proof {
                let k = choose|k: int| 0 <= k < self.order@.len() && self.order@[k] == index;
                assert(self.order()[k] == index as nat);
            }
            return Err(SwarmError::DuplicateTask);
        }
        proof {
            if self.order().contains(index as nat) {
                let k = choose|k: int| 0 <= k < self.order().len() && self.order()[k] == index as nat;
                assert(self.order@[k] == index);
            }
        }
        let ghost prev = self.order@;
        self.seen.set(index, true);
        self.order.push(index);
        proof {
            assert(self.order@ == prev.push(index));
            assert(self.order() =~= old(self).order().push(index as nat));
            assert forall|i: int| 0 <= i < self.width implies (#[trigger] self.seen@[i]
                <==> self.order@.contains(i as usize)) by {
                if i != index {
                    assert(self.seen@[i] == old(self).seen@[i]);
                    if prev.contains(i as usize) {
                        let k = choose|k: int| 0 <= k < prev.len() && prev[k] == i as usize;
                        assert(self.order@[k] == i as usize);
                    }
                    if self.order@.contains(i as usize) {
                        let k = choose|k: int| 0 <= k < self.order@.len() && self.order@[k] == i as usize;
                        assert(k < prev.len());
                        assert(prev[k] == i as usize);
                    }
                } else {
                    assert(self.order@[prev.len() as int] == index);
                }
            }
            assert forall|a: int, b: int|
                0 <= a < self.order@.len() && 0 <= b < self.order@.len() && a != b implies
                self.order@[a] != self.order@[b] by {
                if a == prev.len() && b < prev.len() {
                    assert(prev.contains(prev[b]));
                } else if b == prev.len() && a < prev.len() {
                    assert(prev.contains(prev[a]));
                }
            }
        }
        Ok(())
    }

    /// The number of tasks in the swarm.
    pub fn task_count(&self) -> (r: usize)
        ensures
            r == self.width(),
    {
        self.width
    }

    /// Whether every task has reported.
    pub fn is_full(&self) -> (r: bool)
        requires
            self.wf(),
        ensures
            r == (self.order().len() == self.width()),
    {
        self.order.len() == self.width
    }

    /// What a well-formed roster guarantees: indices inside the swarm, each
    /// reported at most once, and, once as many reports as tasks have come in,
    /// every task among them.
    pub proof fn lemma_order(&self)
        requires
            self.wf(),
        ensures
            self.width() <= usize::MAX,
            self.order().len() <= self.width(),
            self.order().no_duplicates(),
            forall|k: int| 0 <= k < self.order().len() ==> #[trigger] self.order()[k] < self.width(),
            self.order().len() == self.width() ==> forall|i: nat|
                i < self.width() ==> #[trigger] self.order().contains(i),
    {
        let o = self.order();
        assert forall|a: int, b: int| 0 <= a < o.len() && 0 <= b < o.len() && a != b implies
            o[a] != o[b] by {
            assert(self.order@[a] != self.order@[b]);
        }
        let range = set_int_range(0, self.width as int);
        let reported = Set::new(|i: int| 0 <= i < self.width && self.order@.contains(i as usize));
        lemma_int_range(0, self.width as int);
        assert(reported.subset_of(range));
        lemma_len_subset(reported, range);
        let as_ints = self.order@.map_values(|i: usize| i as int);
        assert forall|a: int, b: int| 0 <= a < as_ints.len() && 0 <= b < as_ints.len() && a != b implies
            as_ints[a] != as_ints[b] by {
            assert(self.order@[a] != self.order@[b]);
        }
        as_ints.unique_seq_to_set();
        assert(as_ints.to_set() =~= reported) by {
            assert forall|i: int| reported.contains(i) implies as_ints.to_set().contains(i) by {
                let k = choose|k: int| 0 <= k < self.order@.len() && self.order@[k] == i as usize;
                assert(as_ints[k] == i);
            }
            assert forall|i: int| as_ints.to_set().contains(i) implies reported.contains(i) by {
                let k = choose|k: int| 0 <= k < as_ints.len() && as_ints[k] == i;
                assert(self.order@[k] < self.width);
                assert(self.order@.contains(self.order@[k]));
            }
        }
        if o.len() == self.width() {
            assert forall|i: nat| i < self.width() implies #[trigger] o.contains(i) by {
                if !o.contains(i) {
                    assert(!self.order@.contains(i as usize)) by {
                        if self.order@.contains(i as usize) {
                            let k = choose|k: int| 0 <= k < self.order@.len() && self.order@[k] == i as usize;
                            assert(o[k] == i);
                        }
                    }
                    let smaller = set_int_range(0, self.width as int).remove(i as int);
                    assert(reported.subset_of(smaller));
                    lemma_len_subset(reported, smaller);
                }
            }
        }
    }
}

} // verus!

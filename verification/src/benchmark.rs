//! The decisions of a benchmark run: how many runs to time together, when an
//! attempt has run long enough, which attempt counts, and how the libraries
//! rank. Times are whole nanoseconds.

use vstd::prelude::*;

verus! {

/// The number of attempts made with each library.
pub const ATTEMPTS: u32 = 5;

/// An attempt goes on until its runs have taken this long: ten seconds.
pub const ATTEMPT_NANOS: u128 = 10_000_000_000;

/// The runs made and the time taken so far in one attempt.
pub struct Attempt {
    iterations: u32,
    nanos: u128,
}

/// What to do next in an attempt.
#[derive(Debug, PartialEq, Eq)]
pub enum Step {
    /// Time this many runs together.
    Run(u32),
    /// The attempt is complete; it took this long per run.
    Finish(u128),
}

impl Attempt {
    /// Time has been taken only by runs that were made.
    #[verifier::type_invariant]
    spec fn well_formed(self) -> bool {
        self.nanos > 0 ==> self.iterations > 0
    }

    /// The number of runs made so far.
    pub closed spec fn runs(self) -> nat {
        self.iterations as nat
    }

    /// The time that the runs took.
    pub closed spec fn elapsed(self) -> nat {
        self.nanos as nat
    }

    /// An attempt in which nothing has run yet.
    pub fn new() -> (r: Attempt)
        ensures
            r.runs() == 0,
            r.elapsed() == 0,
    {
        Attempt { iterations: 0, nanos: 0 }
    }

    /// The number of runs made so far.
    pub fn iterations(&self) -> (r: u32)
        ensures
            r == self.runs(),
    {
        self.iterations
    }

    /// The time that the runs took.
    pub fn nanos(&self) -> (r: u128)
        ensures
            r == self.elapsed(),
    {
        self.nanos
    }

    /// The next step. Until the runs have taken `ATTEMPT_NANOS`, it is to time
    /// as many runs again as were made so far, one at the start; after that,
    /// it is to finish with the mean time of a run, rounded down.
    pub fn next(&self) -> (r: Step)
        ensures
            self.elapsed() < ATTEMPT_NANOS ==> r == Step::Run(
                if self.runs() == 0 {
                    1u32
                } else {
                    self.runs() as u32
                },
            ),
            self.elapsed() >= ATTEMPT_NANOS ==> self.runs() > 0 && r == Step::Finish(
                (self.elapsed() / self.runs()) as u128,
            ),
    {
        proof {
            use_type_invariant(self);
        }
        if self.nanos < ATTEMPT_NANOS {
            if self.iterations == 0 {
                Step::Run(1)
            } else {
                Step::Run(self.iterations)
            }
        } else {
            Step::Finish(self.nanos / (self.iterations as u128))
        }
    }

    /// The attempt after `batch` more runs that took `nanos` together.
    pub fn record(self, batch: u32, nanos: u128) -> (r: Attempt)
        requires
            batch >= 1,
            self.runs() + batch <= u32::MAX,
            self.elapsed() + nanos <= u128::MAX,
        ensures
            r.runs() == self.runs() + batch,
            r.elapsed() == self.elapsed() + nanos,
    {
        Attempt { iterations: self.iterations + batch, nanos: self.nanos + nanos }
    }
}

/// The least of the times.
pub fn fastest(times: &Vec<u128>) -> (r: u128)
    requires
        times@.len() > 0,
    ensures
        exists|i: int| 0 <= i < times@.len() && times@[i] == r,
        forall|i: int| 0 <= i < times@.len() ==> r <= times@[i],
{
    let mut best = times[0];
    let mut i: usize = 1;
    while i < times.len()
        invariant
            1 <= i <= times@.len(),
            exists|j: int| 0 <= j < i && times@[j] == best,
            forall|j: int| 0 <= j < i ==> best <= times@[j],
        decreases times@.len() - i,
    {
        if times[i] < best {
            best = times[i];
        }
        i = i + 1;
    }
    best
}

/// Whether position `a` comes before position `b`: by time, and between equal
/// times by position.
pub open spec fn ranks_before(times: Seq<u128>, a: usize, b: usize) -> bool {
    times[a as int] < times[b as int] || (times[a as int] == times[b as int] && a < b)
}

/// Whether `order` lists the first `count` positions of `times`, each once,
/// from the fastest on, equal times in the order of their positions.
pub open spec fn is_ranking(times: Seq<u128>, count: nat, order: Seq<usize>) -> bool {
    &&& count <= times.len()
    &&& order.len() == count
    &&& forall|i: int| 0 <= i < order.len() ==> #[trigger] order[i] < count
    &&& forall|p: usize| p < count ==> order.contains(p)
    &&& forall|i: int, j: int|
        0 <= i < j < order.len() ==> ranks_before(times, #[trigger] order[i], #[trigger] order[j])
}

/// The positions of `times` from the fastest on; equal times stay in the
/// order in which they stand.
pub fn ranking(times: &Vec<u128>) -> (r: Vec<usize>)
    ensures
        is_ranking(times@, times@.len(), r@),
{
    let mut order: Vec<usize> = Vec::new();
    let mut next: usize = 0;
    while next < times.len()
        invariant
            next <= times@.len(),
            is_ranking(times@, next as nat, order@),
        decreases times@.len() - next,
    {
        let mut place: usize = order.len();
        while place > 0 && times[order[place - 1]] > times[next]
            invariant
                next < times@.len(),
                place <= order@.len(),
                is_ranking(times@, next as nat, order@),
                forall|i: int| place <= i < order@.len() ==> times@[order@[i] as int] > times@[next as int],
            decreases place,
        {
            place = place - 1;
        }
        let ghost before = order@;
        order.insert(place, next);
        proof {
            assert forall|i: int, j: int| 0 <= i < j < order@.len() implies ranks_before(
                times@,
                #[trigger] order@[i],
                #[trigger] order@[j],
            ) by {
                if j < place {
                    assert(order@[i] == before[i] && order@[j] == before[j]);
                } else if j == place {
                    assert(order@[i] == before[i]);
                    if i < place - 1 {
                        assert(ranks_before(times@, before[i], before[place - 1]));
                    }
                } else if i < place {
                    assert(order@[i] == before[i] && order@[j] == before[j - 1]);
                } else if i == place {
                    assert(order@[j] == before[j - 1]);
                } else {
                    assert(order@[i] == before[i - 1] && order@[j] == before[j - 1]);
                }
            }
            assert forall|p: usize| p < next + 1 implies order@.contains(p) by {
                if p == next {
                    assert(order@[place as int] == p);
                } else {
                    assert(before.contains(p));
                    let i = choose|i: int| 0 <= i < before.len() && before[i] == p;
                    if i < place {
                        assert(order@[i] == p);
                    } else {
                        assert(order@[i + 1] == p);
                    }
                }
            }
            assert forall|i: int| 0 <= i < order@.len() implies #[trigger] order@[i] < next + 1 by {
                if i < place {
                    assert(order@[i] == before[i]);
                } else if i > place {
                    assert(order@[i] == before[i - 1]);
                }
            }
        }
        next = next + 1;
    }
    order
}

} // verus!

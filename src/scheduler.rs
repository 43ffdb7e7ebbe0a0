//! The decisions of the worker pool: which worker takes the next job, and how
//! many jobs run side by side. The threads, channels and liveness flags
//! themselves live with the program that runs the pool.
use vstd::prelude::*;

verus! {

/// The worker that takes the next job: the first idle one in order, or, when
/// every worker is busy, the one after the worker that was picked last.
pub open spec fn dispatch_choice(idle: Seq<bool>, last: nat) -> nat {
    if idle.len() == 0 {
        0
    } else if exists|i: int| 0 <= i < idle.len() && idle[i] {
        first_idle(idle)
    } else {
        (last + 1) % idle.len()
    }
}

/// The position of the first `true` in `idle`, or its length if there is none.
pub open spec fn first_idle(idle: Seq<bool>) -> nat
    decreases idle.len(),
{
    if idle.len() == 0 {
        0
    } else if idle[0] {
        0
    } else {
        1 + first_idle(idle.drop_first())
    }
}

proof fn lemma_first_idle(idle: Seq<bool>)
    ensures
        first_idle(idle) <= idle.len(),
        forall|j: int| 0 <= j < first_idle(idle) ==> !idle[j],
        first_idle(idle) < idle.len() ==> idle[first_idle(idle) as int],
        (exists|i: int| 0 <= i < idle.len() && idle[i]) ==> first_idle(idle) < idle.len(),
    decreases idle.len(),
{
    if idle.len() > 0 && !idle[0] {
        lemma_first_idle(idle.drop_first());
        assert forall|j: int| 0 <= j < first_idle(idle) implies !idle[j] by {
            if j > 0 {
                assert(idle[j] == idle.drop_first()[j - 1]);
            }
        }
        if exists|i: int| 0 <= i < idle.len() && idle[i] {
            let i = choose|i: int| 0 <= i < idle.len() && idle[i];
            assert(idle.drop_first()[i - 1] == idle[i]);
        }
    }
}

/// Least-busy-first dispatch over a fixed set of workers.
pub struct Dispatcher {
    last_assigned_to: usize,
    max_workers: usize,
    /// The worker each submitted job went to, in order of submission.
    assignments: Ghost<Seq<nat>>,
}

impl Dispatcher {
    pub closed spec fn size(&self) -> nat {
        self.max_workers as nat
    }

    pub closed spec fn last(&self) -> nat {
        self.last_assigned_to as nat
    }

    /// The worker that each job submitted so far was handed to.
    pub closed spec fn history(&self) -> Seq<nat> {
        self.assignments@
    }

    pub closed spec fn wf(&self) -> bool {
        &&& self.max_workers > 0
        &&& self.last_assigned_to < self.max_workers
        &&& forall|k: int| 0 <= k < self.assignments@.len() ==> self.assignments@[k] < self.max_workers
    }

    /// A dispatcher over `size` workers; no job handed out yet.
    pub fn new(size: usize) -> (r: Dispatcher)
        requires
            size > 0,
        ensures
            r.wf(),
            r.size() == size,
            r.last() == 0,
            r.history() == Seq::<nat>::empty(),
    {
        Dispatcher { last_assigned_to: 0, max_workers: size, assignments: Ghost(Seq::empty()) }
    }

    /// The number of workers.
    pub fn workers(&self) -> (r: usize)
        ensures
            r == self.size(),
    {
        self.max_workers
    }

    /// Picks the worker for the next job, given which workers are idle now.
    pub fn select(&mut self, idle: &Vec<bool>) -> (r: usize)
        requires
            old(self).wf(),
            idle@.len() == old(self).size(),
        ensures
            final(self).wf(),
            r < old(self).size(),
            r == dispatch_choice(idle@, old(self).last()),
            final(self).size() == old(self).size(),
            final(self).last() == r,
            final(self).history() == old(self).history().push(r as nat),
    {
        proof {
            lemma_first_idle(idle@);
        }
        let mut i: usize = 0;
        while i < idle.len()
            invariant
                i <= idle@.len(),
                idle@.len() == self.max_workers,
                *self == *old(self),
                self.wf(),
                forall|j: int| 0 <= j < i ==> !idle@[j],
                first_idle(idle@) <= idle@.len(),
                forall|j: int| 0 <= j < first_idle(idle@) ==> !idle@[j],
                first_idle(idle@) < idle@.len() ==> idle@[first_idle(idle@) as int],
                (exists|k: int| 0 <= k < idle@.len() && idle@[k]) ==> first_idle(idle@)
                    < idle@.len(),
            decreases idle@.len() - i,
        {
            if idle[i] {
                proof {
                    assert(first_idle(idle@) < idle@.len());
                    if first_idle(idle@) < i {
                        assert(!idle@[first_idle(idle@) as int]);
                    }
                    if first_idle(idle@) > i {
                        assert(!idle@[i as int]);
                    }
                    assert(first_idle(idle@) == i);
                }
                self.last_assigned_to = i;
                self.assignments = Ghost(self.assignments@.push(i as nat));
                return i;
            }
            i = i + 1;
        }
        let next: usize = if self.last_assigned_to + 1 >= self.max_workers {
            0
        } else {
            self.last_assigned_to + 1
        };
        proof {
            assert(!(exists|k: int| 0 <= k < idle@.len() && idle@[k]));
            if self.last_assigned_to + 1 >= self.max_workers {
                assert((self.last_assigned_to + 1) as nat % self.max_workers as nat == 0) by {
                    vstd::arithmetic::div_mod::lemma_mod_self_0(self.max_workers as int);
                }
            } else {
                vstd::arithmetic::div_mod::lemma_small_mod(
                    (self.last_assigned_to + 1) as nat,
                    self.max_workers as nat,
                );
            }
        }
        self.last_assigned_to = next;
        self.assignments = Ghost(self.assignments@.push(next as nat));
        next
    }
}

/// Every job handed to a pool of `size` workers went to exactly one of them:
/// the record holds one worker per job, and each is one of the pool's.
pub proof fn lemma_each_job_one_worker(d: Dispatcher)
    requires
        d.wf(),
    ensures
        forall|k: int| 0 <= k < d.history().len() ==> #[trigger] d.history()[k] < d.size(),
{
}

/// The jobs handed to a pool, each with whether it has reported back. A job
/// is reported once: a second report of it is refused.
pub struct JobLedger {
    done: Vec<bool>,
}

impl JobLedger {
    /// For each job submitted so far, in order, whether it has reported.
    pub closed spec fn status(&self) -> Seq<bool> {
        self.done@
    }

    /// A ledger with no jobs.
    pub fn new() -> (r: JobLedger)
        ensures
            r.status() == Seq::<bool>::empty(),
    {
        JobLedger { done: Vec::new() }
    }

    /// Records a new job and returns its number.
    pub fn submit(&mut self) -> (r: usize)
        ensures
            r == old(self).status().len(),
            final(self).status() == old(self).status().push(false),
    {
        let id = self.done.len();
        self.done.push(false);
        id
    }

    /// Records that job `id` has reported. Refused, changing nothing, for a
    /// job that was never submitted or has reported already.
    pub fn complete(&mut self, id: usize) -> (r: bool)
        ensures
            r <==> (id < old(self).status().len() && !old(self).status()[id as int]),
            r ==> final(self).status() == old(self).status().update(id as int, true),
            !r ==> final(self).status() == old(self).status(),
    {
        if id < self.done.len() && !self.done[id] {
            self.done.set(id, true);
            true
        } else {
            false
        }
    }

    /// Whether every submitted job has reported.
    pub fn all_done(&self) -> (r: bool)
        ensures
            r <==> forall|i: int| 0 <= i < self.status().len() ==> self.status()[i],
    {
        let mut i: usize = 0;
        while i < self.done.len()
            invariant
                i <= self.done@.len(),
                forall|k: int| 0 <= k < i ==> self.done@[k],
            decreases self.done@.len() - i,
        {
            if !self.done[i] {
                assert(!self.status()[i as int]);
                return false;
            }
            i = i + 1;
        }
        true
    }
}

/// How many single-job threads run side by side in one batch: seven tenths of
/// the hardware's parallelism, rounded down, and at least one.
pub fn max_parallel(hardware: usize) -> (r: usize)
    ensures
        r as int == if hardware * 7 / 10 >= 1 {
            hardware * 7 / 10
        } else {
            1
        },
{
    let tenths: usize = hardware / 10 * 7 + hardware % 10 * 7 / 10;
    proof {
        let q = hardware as int / 10;
        let m = hardware as int % 10;
        vstd::arithmetic::div_mod::lemma_fundamental_div_mod(hardware as int, 10);
        vstd::arithmetic::div_mod::lemma_hoist_over_denominator(m * 7, q * 7, 10);
        assert(hardware as int * 7 == m * 7 + q * 7 * 10) by (nonlinear_arith)
            requires
                hardware as int == 10 * q + m,
        ;
    }
    if tenths < 1 {
        1
    } else {
        tenths
    }
}

} // verus!

//! The cooperative tick scheduler.
//!
//! Each tick starts by recording its start time, then starts the scripts
//! whose trigger holds, then steps threads one block at a time until the work
//! budget is spent or no thread is left. The budget is checked between steps
//! only: a step that has begun finishes, and none begins once the budget is
//! spent. Threads are picked by how many steps they have had, the fewest
//! first and the lowest position among equals, so that no thread ever has
//! two steps more than another. The counts carry over from tick to tick: the
//! rotation goes on where the last tick stopped, so a tick whose budget fits
//! fewer steps than there are threads does not favour the first threads.
use vstd::prelude::*;

use crate::sb4;
use crate::virtual_machine::VirtualMachine;

verus! {

/// The time between ticks when running at full speed: 1/30 s, in nanoseconds.
pub const TICK_PERIOD_NANOS: u64 = 33_333_333;

/// The part of each tick that scripts may use: 3/4 of the period (1/40 s),
/// in nanoseconds. The rest is left to drawing and loading.
pub const WORK_BUDGET_NANOS: u64 = 25_000_000;

/// One running script: which target runs it, which of the target's scripts
/// it is, and how far it has got.
#[derive(Clone, Copy, Debug, PartialEq, Eq, Structural)]
pub struct Thread {
    pub target: usize,
    pub script: usize,
    pub pc: usize,
    /// Steps taken since the thread started, counted from the fewest that
    /// any thread had when it started.
    pub steps: u64,
}

/// What running one step of a thread came to.
#[derive(Clone, Copy, Debug, PartialEq, Eq, Structural)]
pub enum StepOutcome {
    /// The thread has more to do; it goes on from `pc`.
    Yielded { pc: usize },
    /// The thread reached the end of its script.
    Finished,
    /// The step raised a fault; the thread ends.
    Fault,
}

/// The position of the first of the smallest counts in `s`.
pub open spec fn least_index(s: Seq<u64>) -> int
    decreases s.len(),
{
    if s.len() <= 1 {
        0
    } else {
        let k = least_index(s.drop_last());
        if s.last() < s[k] {
            s.len() - 1
        } else {
            k
        }
    }
}

/// No count exceeds another by more than one.
pub open spec fn balanced(s: Seq<u64>) -> bool {
    forall|i: int, j: int| 0 <= i < s.len() && 0 <= j < s.len() ==> #[trigger] s[i] <= #[trigger] s[j] + 1
}

pub proof fn lemma_least_index(s: Seq<u64>)
    requires
        s.len() >= 1,
    ensures
        0 <= least_index(s) < s.len(),
        forall|i: int| 0 <= i < s.len() ==> s[least_index(s)] <= #[trigger] s[i],
        forall|i: int| 0 <= i < least_index(s) ==> s[least_index(s)] < #[trigger] s[i],
    decreases s.len(),
{
    if s.len() > 1 {
        let p = s.drop_last();
        lemma_least_index(p);
        assert forall|i: int| 0 <= i < p.len() implies p[i] == #[trigger] s[i] by {}
    }
}

/// Round robin: when every thread has had as many steps, the thread picked
/// next is not picked again right after it has been stepped, as long as there
/// is another thread. Together with `balanced` holding after every pick, no
/// thread is stepped twice while another is skipped twice.
pub proof fn lemma_next_pick_moves_on(s: Seq<u64>)
    requires
        s.len() >= 2,
        forall|i: int, j: int| 0 <= i < s.len() && 0 <= j < s.len() ==> #[trigger] s[i] == #[trigger] s[j],
        s[least_index(s)] < u64::MAX,
    ensures
        least_index(s.update(least_index(s), (s[least_index(s)] + 1) as u64)) != least_index(s),
{
    lemma_least_index(s);
    let k = least_index(s);
    let s2 = s.update(k, (s[k] + 1) as u64);
    lemma_least_index(s2);
    let other = if k == 0 { 1int } else { 0int };
    assert(s2[other] == s[other]);
    assert(s[other] == s[k]);
}

#[derive(Debug)]
pub struct Scheduler {
    threads: Vec<Thread>,
    tick_start: u64,
    budget: u64,
}

impl Scheduler {
    pub closed spec fn threads(&self) -> Seq<Thread> {
        self.threads@
    }

    pub closed spec fn tick_start(&self) -> u64 {
        self.tick_start
    }

    pub closed spec fn budget(&self) -> u64 {
        self.budget
    }

    /// The steps each thread has had (see `Thread::steps`).
    pub open spec fn step_counts(&self) -> Seq<u64> {
        self.threads().map_values(|t: Thread| t.steps)
    }

    /// Time since the tick began; a clock reading before it counts as none.
    pub open spec fn elapsed(&self, now: u64) -> u64 {
        if now >= self.tick_start() {
            (now - self.tick_start()) as u64
        } else {
            0
        }
    }

    /// No thread has had more than one step more than another.
    pub open spec fn wf(&self) -> bool {
        balanced(self.step_counts())
    }

    /// A scheduler with no threads and the given work budget per tick.
    pub fn new(budget: u64) -> (r: Scheduler)
        ensures
            r.wf(),
            r.threads().len() == 0,
            r.budget() == budget,
    {
        let r = Scheduler { threads: Vec::new(), tick_start: 0, budget };
        assert(r.step_counts() =~= Seq::empty());
        r
    }

    pub fn threads_ref(&self) -> (r: &Vec<Thread>)
        ensures
            r@ == self.threads(),
    {
        &self.threads
    }

    pub fn len(&self) -> (r: usize)
        ensures
            r == self.threads().len(),
    {
        self.threads.len()
    }

    /// Starts a tick at `now`: the budget is counted from here. The threads
    /// keep their step counts, so the rotation goes on where the last tick
    /// left it and a tick too short for every thread starves none of them.
    pub fn begin_tick(&mut self, now: u64)
        requires
            old(self).wf(),
        ensures
            final(self).wf(),
            final(self).tick_start() == now,
            final(self).budget() == old(self).budget(),
            final(self).threads() == old(self).threads(),
    {
        self.tick_start = now;
    }

    /// Whether a thread of `target` runs its script `script`.
    pub fn is_running(&self, target: usize, script: usize) -> (r: bool)
        ensures
            r == exists|i: int|
                0 <= i < self.threads().len() && (#[trigger] self.threads()[i]).target == target
                    && self.threads()[i].script == script,
    {
        let mut i: usize = 0;
        while i < self.threads.len()
            invariant
                0 <= i <= self.threads@.len(),
                forall|t: int| 0 <= t < i ==> !((#[trigger] self.threads@[t]).target == target
                    && self.threads@[t].script == script),
            decreases self.threads@.len() - i,
        {
            if self.threads[i].target == target && self.threads[i].script == script {
                assert(self.threads()[i as int].target == target);
                return true;
            }
            i += 1;
        }
        false
    }

    /// Starts script `script` of `target` at its first block, unless a thread
    /// already runs it. The new thread is owed as many steps as the thread
    /// owed the most.
    pub fn start_thread(&mut self, target: usize, script: usize) -> (r: bool)
        requires
            old(self).wf(),
        ensures
            final(self).wf(),
            final(self).tick_start() == old(self).tick_start(),
            final(self).budget() == old(self).budget(),
            r == !exists|i: int|
                0 <= i < old(self).threads().len() && (#[trigger] old(self).threads()[i]).target == target
                    && old(self).threads()[i].script == script,
            !r ==> final(self).threads() == old(self).threads(),
            r ==> final(self).threads().len() == old(self).threads().len() + 1
                && final(self).threads().drop_last() == old(self).threads()
                && final(self).threads().last().target == target
                && final(self).threads().last().script == script
                && final(self).threads().last().pc == 0,
    {
        if self.is_running(target, script) {
            return false;
        }
        let steps = self.fewest_steps();
        let ghost before = self.threads@;
        proof {
            if before.len() > 0 {
                lemma_least_index(old(self).step_counts());
            }
        }
        self.threads.push(Thread { target, script, pc: 0, steps });
        proof {
            assert(self.threads@.drop_last() =~= before);
            let s = self.step_counts();
            let n = s.len() - 1;
            assert forall|a: int, b: int| 0 <= a < s.len() && 0 <= b < s.len() implies #[trigger] s[a] <= #[trigger] s[b] + 1 by {
                if a < n && b < n {
                    assert(s[a] == before[a].steps);
                    assert(s[b] == before[b].steps);
                    assert(old(self).step_counts()[a] <= old(self).step_counts()[b] + 1);
                } else if a < n {
                    let m = least_index(old(self).step_counts());
                    assert(s[a] == before[a].steps);
                    assert(old(self).step_counts()[a] <= old(self).step_counts()[m] + 1);
                } else if b < n {
                    assert(s[b] == before[b].steps);
                    assert(old(self).step_counts()[b] == before[b].steps);
                }
            }
        }
        true
    }

    /// The fewest steps any thread has had; zero when there is none.
    fn fewest_steps(&self) -> (r: u64)
        ensures
            self.threads().len() == 0 ==> r == 0,
            self.threads().len() > 0 ==> r == self.step_counts()[least_index(self.step_counts())],
    {
        if self.threads.len() == 0 {
            return 0;
        }
        let k = self.pick();
        self.threads[k].steps
    }

    /// The first thread with the fewest steps.
    fn pick(&self) -> (r: usize)
        requires
            self.threads().len() > 0,
        ensures
            r == least_index(self.step_counts()),
            r < self.threads().len(),
            self.step_counts()[r as int] == self.threads()[r as int].steps,
    {
        let ghost s = self.step_counts();
        let mut k: usize = 0;
        let mut i: usize = 1;
        assert(s.subrange(0, 1).len() == 1);
        while i < self.threads.len()
            invariant
                s == self.step_counts(),
                s.len() == self.threads@.len(),
                1 <= i <= s.len(),
                k == least_index(s.subrange(0, i as int)),
                0 <= k < i,
            decreases s.len() - i,
        {
            proof {
                let p = s.subrange(0, i + 1);
                assert(p.drop_last() =~= s.subrange(0, i as int));
                lemma_least_index(s.subrange(0, i as int));
                assert(p[k as int] == s[k as int]);
                assert(p.last() == s[i as int]);
                assert(s[k as int] == self.threads@[k as int].steps);
                assert(s[i as int] == self.threads@[i as int].steps);
            }
            if self.threads[i].steps < self.threads[k].steps {
                k = i;
            }
            i += 1;
        }
        assert(s.subrange(0, s.len() as int) =~= s);
        proof {
            lemma_least_index(s);
        }
        k
    }

    /// Chooses the thread to step next, at clock reading `now`: none once the
    /// budget is spent or when no thread is left; else the first thread with
    /// the fewest steps, which is counted as stepped.
    pub fn next_thread(&mut self, now: u64) -> (r: Option<usize>)
        requires
            old(self).wf(),
        ensures
            final(self).wf(),
            final(self).tick_start() == old(self).tick_start(),
            final(self).budget() == old(self).budget(),
            r is None <==> old(self).elapsed(now) > old(self).budget() || old(self).threads().len() == 0
                || old(self).step_counts()[least_index(old(self).step_counts())] == u64::MAX,
            r is None ==> final(self).threads() == old(self).threads(),
            r matches Some(i) ==> {
                &&& i == least_index(old(self).step_counts())
                &&& i < old(self).threads().len()
                &&& old(self).elapsed(now) <= old(self).budget()
                &&& final(self).threads() == old(self).threads().update(
                    i as int,
                    Thread { steps: (old(self).threads()[i as int].steps + 1) as u64, ..old(self).threads()[i as int] },
                )
            },
    {
        let elapsed = if now >= self.tick_start {
            now - self.tick_start
        } else {
            0
        };
        if elapsed > self.budget || self.threads.len() == 0 {
            return None;
        }
        let k = self.pick();
        let mut t = self.threads[k];
        assert(t.steps == self.step_counts()[k as int]);
        if t.steps == u64::MAX {
            return None;
        }
        proof {
            lemma_least_index(self.step_counts());
        }
        let ghost before = self.step_counts();
        t.steps = t.steps + 1;
        self.threads.set(k, t);
        proof {
            let s = self.step_counts();
            assert forall|a: int, b: int| 0 <= a < s.len() && 0 <= b < s.len() implies #[trigger] s[a] <= #[trigger] s[b] + 1 by {
                assert(before[a] <= before[b] + 1);
                assert(before[k as int] <= before[a]);
                assert(before[k as int] <= before[b]);
                if a != k {
                    assert(s[a] == before[a]);
                }
                if b != k {
                    assert(s[b] == before[b]);
                }
            }
        }
        Some(k)
    }

    /// Records what a step of thread `i` came to: a yielded thread goes on
    /// from its new position; a finished or faulted one is removed.
    pub fn finish_step(&mut self, i: usize, outcome: StepOutcome)
        requires
            old(self).wf(),
            i < old(self).threads().len(),
        ensures
            final(self).wf(),
            final(self).tick_start() == old(self).tick_start(),
            final(self).budget() == old(self).budget(),
            outcome matches StepOutcome::Yielded { pc } ==> final(self).threads() == old(self).threads().update(
                i as int,
                Thread { pc, ..old(self).threads()[i as int] },
            ),
            !(outcome is Yielded) ==> final(self).threads() == old(self).threads().remove(i as int),
    {
        let ghost before = self.step_counts();
        match outcome {
            StepOutcome::Yielded { pc } => {
                let mut t = self.threads[i];
                t.pc = pc;
                self.threads.set(i, t);
                proof {
                    let s = self.step_counts();
                    assert forall|a: int, b: int| 0 <= a < s.len() && 0 <= b < s.len() implies #[trigger] s[a] <= #[trigger] s[b] + 1 by {
                        assert(s[a] == before[a]);
                        assert(s[b] == before[b]);
                    }
                }
            },
            _ => {
                self.threads.remove(i);
                proof {
                    let s = self.step_counts();
                    assert forall|a: int, b: int| 0 <= a < s.len() && 0 <= b < s.len() implies #[trigger] s[a] <= #[trigger] s[b] + 1 by {
                        let a0 = if a < i { a } else { a + 1 };
                        let b0 = if b < i { b } else { b + 1 };
                        assert(s[a] == before[a0]);
                        assert(s[b] == before[b0]);
                    }
                }
            },
        }
    }
}

/// Script `s` of target `t` starts with the hat block `trigger`.
pub open spec fn is_hat(vm: VirtualMachine, t: int, s: int, trigger: Seq<char>) -> bool {
    &&& 0 <= t < vm.targets.len()
    &&& vm.targets[t].sprite < vm.sprites.len()
    &&& 0 <= s < vm.sprites[vm.targets[t].sprite as int].scripts.len()
    &&& vm.sprites[vm.targets[t].sprite as int].scripts[s].stack matches sb4::BlockStack::Script(bs)
        && bs.len() > 0 && bs[0].opcode@ == trigger
}

/// Some thread of `threads` runs script `s` of target `t`.
pub open spec fn runs(threads: Seq<Thread>, t: int, s: int) -> bool {
    exists|i: int| 0 <= i < threads.len() && (#[trigger] threads[i]).target == t && threads[i].script == s
}

/// The threads `now` are those `before` and, after them, threads of hat
/// scripts for `trigger`, each at its first block and each for a script that
/// no thread before it runs: a running script gets no second thread.
pub open spec fn only_hats_added(vm: VirtualMachine, before: Seq<Thread>, now: Seq<Thread>, trigger: Seq<char>) -> bool {
    &&& before.len() <= now.len()
    &&& forall|i: int| 0 <= i < before.len() ==> #[trigger] now[i] == before[i]
    &&& forall|i: int| before.len() <= i < now.len() ==> is_hat(vm, (#[trigger] now[i]).target as int, now[i].script as int, trigger)
    &&& forall|i: int| before.len() <= i < now.len() ==> (#[trigger] now[i]).pc == 0
    &&& forall|i: int| before.len() <= i < now.len() ==> !runs(now.subrange(0, i), (#[trigger] now[i]).target as int, now[i].script as int)
}

impl VirtualMachine {
    /// Starts the tick at clock reading `now`; nothing else changes.
    pub fn reset_work_timer(&mut self, now: u64)
        requires
            old(self).wf(),
        ensures
            final(self).wf(),
            final(self).sprites == old(self).sprites,
            final(self).targets == old(self).targets,
            final(self).generation == old(self).generation,
            final(self).scheduler.tick_start() == now,
            final(self).scheduler.budget() == old(self).scheduler.budget(),
            final(self).scheduler.threads() == old(self).scheduler.threads(),
    {
        self.scheduler.begin_tick(now);
    }

    /// Starts a thread for every script of target `t` that begins with the hat
    /// block `trigger` and is not already running.
    fn start_hats_of(&mut self, t: usize, trigger: &String)
        requires
            old(self).wf(),
            t < old(self).targets.len(),
        ensures
            final(self).wf(),
            final(self).sprites == old(self).sprites,
            final(self).targets == old(self).targets,
            final(self).generation == old(self).generation,
            final(self).scheduler.tick_start() == old(self).scheduler.tick_start(),
            final(self).scheduler.budget() == old(self).scheduler.budget(),
            only_hats_added(*old(self), old(self).scheduler.threads(), final(self).scheduler.threads(), trigger@),
            forall|s: int| #[trigger] is_hat(*old(self), t as int, s, trigger@) ==> runs(final(self).scheduler.threads(), t as int, s),
    {
        let k = self.targets[t].sprite;
        let n = self.sprites[k].scripts.len();
        let ghost start = self.scheduler.threads();
        let mut s: usize = 0;
        while s < n
            invariant
                self.wf(),
                self.sprites == old(self).sprites,
                self.targets == old(self).targets,
                self.generation == old(self).generation,
                self.scheduler.tick_start() == old(self).scheduler.tick_start(),
                self.scheduler.budget() == old(self).scheduler.budget(),
                start == old(self).scheduler.threads(),
                t < self.targets.len(),
                k == self.targets[t as int].sprite,
                k < self.sprites.len(),
                n == self.sprites[k as int].scripts.len(),
                0 <= s <= n,
                only_hats_added(*old(self), start, self.scheduler.threads(), trigger@),
                forall|q: int| 0 <= q < s && #[trigger] is_hat(*old(self), t as int, q, trigger@) ==> runs(self.scheduler.threads(), t as int, q),
            decreases n - s,
        {
            let hat = match &self.sprites[k].scripts[s].stack {
                sb4::BlockStack::Script(bs) => bs.len() > 0 && bs[0].opcode == *trigger,
                _ => false,
            };
            if hat {
                let ghost before = self.scheduler.threads();
                let started = self.scheduler.start_thread(t, s);
                proof {
                    let now = self.scheduler.threads();
                    if started {
                        assert(now.drop_last() == before);
                        assert forall|i: int| 0 <= i < before.len() implies #[trigger] now[i] == before[i] by {
                            assert(now.drop_last()[i] == now[i]);
                        }
                        assert(is_hat(*old(self), t as int, s as int, trigger@));
                        assert(now[now.len() - 1] == now.last());
                        assert(now.subrange(0, before.len() as int) =~= before);
                        assert forall|i: int| start.len() <= i < now.len() implies !runs(
                            now.subrange(0, i),
                            (#[trigger] now[i]).target as int,
                            now[i].script as int,
                        ) && now[i].pc == 0 by {
                            if i < before.len() {
                                assert(now.subrange(0, i) =~= before.subrange(0, i));
                            }
                        }
                        assert(runs(now, t as int, s as int));
                        assert forall|q: int| 0 <= q < s && #[trigger] is_hat(*old(self), t as int, q, trigger@) implies runs(now, t as int, q) by {
                            let w = choose|w: int| 0 <= w < before.len() && (#[trigger] before[w]).target == t as int && before[w].script == q;
                            assert(now[w] == before[w]);
                        }
                        assert forall|i: int| 0 <= i < now.len() implies ({
                            let th = #[trigger] now[i];
                            &&& th.target < self.targets.len()
                            &&& th.script < self.sprites[self.targets[th.target as int].sprite as int].scripts.len()
                        }) by {
                            if i < before.len() {
                                assert(now[i] == before[i]);
                            }
                        }
                    } else {
                        assert(runs(now, t as int, s as int));
                    }
                }
            } else {
                proof {
                    assert(!is_hat(*old(self), t as int, s as int, trigger@));
                }
            }
            s += 1;
        }
    }

    /// The hat pass: starts a thread for every script, of every target, that
    /// begins with the hat block `trigger` and is not already running.
    pub fn start_hats(&mut self, trigger: &String)
        requires
            old(self).wf(),
        ensures
            final(self).wf(),
            final(self).sprites == old(self).sprites,
            final(self).targets == old(self).targets,
            final(self).generation == old(self).generation,
            final(self).scheduler.tick_start() == old(self).scheduler.tick_start(),
            final(self).scheduler.budget() == old(self).scheduler.budget(),
            only_hats_added(*old(self), old(self).scheduler.threads(), final(self).scheduler.threads(), trigger@),
            forall|t: int, s: int| #[trigger] is_hat(*old(self), t, s, trigger@) ==> runs(final(self).scheduler.threads(), t, s),
    {
        let ghost start = self.scheduler.threads();
        let mut t: usize = 0;
        while t < self.targets.len()
            invariant
                self.wf(),
                self.sprites == old(self).sprites,
                self.targets == old(self).targets,
                self.generation == old(self).generation,
                self.scheduler.tick_start() == old(self).scheduler.tick_start(),
                self.scheduler.budget() == old(self).scheduler.budget(),
                start == old(self).scheduler.threads(),
                0 <= t <= self.targets.len(),
                only_hats_added(*old(self), start, self.scheduler.threads(), trigger@),
                forall|a: int, q: int| 0 <= a < t && #[trigger] is_hat(*old(self), a, q, trigger@) ==> runs(self.scheduler.threads(), a, q),
            decreases self.targets.len() - t,
        {
            let ghost before = self.scheduler.threads();
            let ghost mid = *self;
            self.start_hats_of(t, trigger);
            proof {
                let now = self.scheduler.threads();
                assert(mid.sprites == old(self).sprites && mid.targets == old(self).targets);
                assert forall|s: int| #[trigger] is_hat(mid, t as int, s, trigger@) == is_hat(*old(self), t as int, s, trigger@) by {}
                assert forall|i: int| 0 <= i < start.len() implies #[trigger] now[i] == start[i] by {
                    assert(before[i] == start[i]);
                    assert(now[i] == before[i]);
                }
                assert forall|i: int| start.len() <= i < now.len() implies !runs(
                    now.subrange(0, i),
                    (#[trigger] now[i]).target as int,
                    now[i].script as int,
                ) && now[i].pc == 0 by {
                    if i < before.len() {
                        assert(now.subrange(0, i) =~= before.subrange(0, i));
                        assert(now[i] == before[i]);
                    }
                }
                assert forall|i: int| start.len() <= i < now.len() implies is_hat(*old(self), (#[trigger] now[i]).target as int, now[i].script as int, trigger@) by {
                    if i < before.len() {
                        assert(now[i] == before[i]);
                    } else {
                        assert(is_hat(mid, now[i].target as int, now[i].script as int, trigger@));
                    }
                }
                assert forall|a: int, q: int| 0 <= a <= t && #[trigger] is_hat(*old(self), a, q, trigger@) implies runs(now, a, q) by {
                    if a < t {
                        let w = choose|w: int| 0 <= w < before.len() && (#[trigger] before[w]).target == a && before[w].script == q;
                        assert(now[w] == before[w]);
                    } else {
                        assert(is_hat(mid, t as int, q, trigger@));
                    }
                }
            }
            t += 1;
        }
    }
}

impl VirtualMachine {
    /// The step pass: the thread to step next at clock reading `now`, or none
    /// once the work budget of this tick is spent or no thread is left.
    pub fn step_threads(&mut self, now: u64) -> (r: Option<usize>)
        requires
            old(self).wf(),
        ensures
            final(self).wf(),
            final(self).sprites == old(self).sprites,
            final(self).targets == old(self).targets,
            final(self).generation == old(self).generation,
            final(self).scheduler.tick_start() == old(self).scheduler.tick_start(),
            final(self).scheduler.budget() == old(self).scheduler.budget(),
            r is None <==> old(self).scheduler.elapsed(now) > old(self).scheduler.budget()
                || old(self).scheduler.threads().len() == 0
                || old(self).scheduler.step_counts()[least_index(old(self).scheduler.step_counts())] == u64::MAX,
            r is None ==> final(self).scheduler.threads() == old(self).scheduler.threads(),
            r matches Some(i) ==> {
                &&& i == least_index(old(self).scheduler.step_counts())
                &&& i < old(self).scheduler.threads().len()
                &&& old(self).scheduler.elapsed(now) <= old(self).scheduler.budget()
                &&& final(self).scheduler.threads() == old(self).scheduler.threads().update(
                    i as int,
                    Thread {
                        steps: (old(self).scheduler.threads()[i as int].steps + 1) as u64,
                        ..old(self).scheduler.threads()[i as int]
                    },
                )
            },
    {
        let ghost before = self.scheduler.threads();
        let r = self.scheduler.next_thread(now);
        proof {
            if let Some(i) = r {
                let now_threads = self.scheduler.threads();
                assert(now_threads.len() == before.len());
                assert forall|j: int| 0 <= j < now_threads.len() implies ({
                    let th = #[trigger] now_threads[j];
                    &&& th.target < self.targets.len()
                    &&& th.script < self.sprites[self.targets[th.target as int].sprite as int].scripts.len()
                }) by {
                    assert(now_threads[j].target == before[j].target);
                    assert(now_threads[j].script == before[j].script);
                }
            }
        }
        r
    }

    /// Records what stepping thread `i` came to.
    pub fn end_step(&mut self, i: usize, outcome: StepOutcome)
        requires
            old(self).wf(),
            i < old(self).scheduler.threads().len(),
        ensures
            final(self).wf(),
            final(self).sprites == old(self).sprites,
            final(self).targets == old(self).targets,
            final(self).generation == old(self).generation,
            final(self).scheduler.tick_start() == old(self).scheduler.tick_start(),
            final(self).scheduler.budget() == old(self).scheduler.budget(),
            outcome matches StepOutcome::Yielded { pc } ==> final(self).scheduler.threads() == old(self).scheduler.threads().update(
                i as int,
                Thread { pc, ..old(self).scheduler.threads()[i as int] },
            ),
            !(outcome is Yielded) ==> final(self).scheduler.threads() == old(self).scheduler.threads().remove(i as int),
    {
        self.scheduler.finish_step(i, outcome);
        proof {
            let before = old(self).scheduler.threads();
            let now_threads = self.scheduler.threads();
            assert forall|j: int| 0 <= j < now_threads.len() implies ({
                let th = #[trigger] now_threads[j];
                &&& th.target < self.targets.len()
                &&& th.script < self.sprites[self.targets[th.target as int].sprite as int].scripts.len()
            }) by {
                if outcome is Yielded {
                    assert(now_threads[j].target == before[j].target);
                } else if j < i {
                    assert(now_threads[j] == before[j]);
                } else {
                    assert(now_threads[j] == before[j + 1]);
                }
            }
        }
    }
}

} // verus!

//! The hashing pipeline: its configuration, and the bookkeeping of one run.
//!
//! A run plans its memory, then one producer feeds paths to a fixed set of
//! workers over a shared channel. The threads and the channel live with the
//! caller; every decision and count of the run lives in `RunLedger`, a state
//! machine that the producer and the workers update as events happen.

use crate::memory::{
    fallback_ram, plan_memory, plan_spec, ram_budget_of, recommend_config, MemoryMode, MemoryPlan,
};
use vstd::prelude::*;

verus! {

/// Configuration of a pipeline run: a memory mode and optional overrides.
pub struct Pipeline {
    pub mode: MemoryMode,
    threads_override: Option<usize>,
    max_ram_override: Option<u64>,
}

impl Pipeline {
    /// The memory mode.
    pub closed spec fn mode_spec(&self) -> MemoryMode {
        self.mode
    }

    /// The thread override in effect (never zero).
    pub closed spec fn threads_spec(&self) -> Option<usize> {
        self.threads_override
    }

    /// The RAM budget override in effect (never zero).
    pub closed spec fn max_ram_spec(&self) -> Option<u64> {
        self.max_ram_override
    }

    /// A pipeline in `mode` with no overrides.
    pub fn new(mode: MemoryMode) -> (r: Pipeline)
        ensures
            r.mode_spec() == mode,
            r.threads_spec() is None,
            r.max_ram_spec() is None,
    {
        Pipeline { mode, threads_override: None, max_ram_override: None }
    }

    /// Sets the thread override; `None` or zero clears it.
    pub fn with_threads(self, threads: Option<usize>) -> (r: Pipeline)
        ensures
            r.mode_spec() == self.mode_spec(),
            r.max_ram_spec() == self.max_ram_spec(),
            r.threads_spec() == (match threads {
                Some(t) => if t == 0 {
                    None
                } else {
                    Some(t)
                },
                None => None,
            }),
    {
        let threads_override = match threads {
            Some(t) => if t == 0 {
                None
            } else {
                Some(t)
            },
            None => None,
        };
        Pipeline { mode: self.mode, threads_override, max_ram_override: self.max_ram_override }
    }

    /// Sets the RAM budget override; `None` or zero clears it.
    pub fn with_max_ram(self, max_ram: Option<u64>) -> (r: Pipeline)
        ensures
            r.mode_spec() == self.mode_spec(),
            r.threads_spec() == self.threads_spec(),
            r.max_ram_spec() == (match max_ram {
                Some(v) => if v == 0 {
                    None
                } else {
                    Some(v)
                },
                None => None,
            }),
    {
        let max_ram_override = match max_ram {
            Some(v) => if v == 0 {
                None
            } else {
                Some(v)
            },
            None => None,
        };
        Pipeline { mode: self.mode, threads_override: self.threads_override, max_ram_override }
    }

    /// The thread override in effect.
    pub fn threads_override(&self) -> (r: Option<usize>)
        ensures
            r == self.threads_spec(),
    {
        self.threads_override
    }

    /// The RAM budget override in effect.
    pub fn max_ram_override(&self) -> (r: Option<u64>)
        ensures
            r == self.max_ram_spec(),
    {
        self.max_ram_override
    }

    /// The memory plan of a run on a host with `cpus` logical CPUs that
    /// reported `detected_ram` bytes of RAM.
    pub fn plan_for_host(&self, cpus: usize, detected_ram: Option<u64>) -> (r: MemoryPlan)
        ensures
            r == plan_spec(
                self.mode_spec(),
                self.threads_spec(),
                ram_budget_of(self.max_ram_spec(), fallback_ram(detected_ram)),
                cpus as nat,
            ),
    {
        plan_memory(self.mode, self.threads_override, self.max_ram_override, cpus, detected_ram)
    }

    /// The memory plan of a run on this host.
    pub fn plan(&self) -> (r: MemoryPlan)
        ensures
            exists|cpus: usize, ram: Option<u64>|
                r == plan_spec(
                    self.mode_spec(),
                    self.threads_spec(),
                    ram_budget_of(self.max_ram_spec(), fallback_ram(ram)),
                    cpus as nat,
                ),
            r.threads >= 1,
            r.num_buffers >= 1,
            r.threads <= r.num_buffers,
    {
        recommend_config(self.mode, self.threads_override, self.max_ram_override)
    }
}

/// Where a run stands.
#[derive(Debug, Clone, Copy, PartialEq, Eq, Structural)]
pub enum RunPhase {
    /// Nothing started yet.
    Planning,
    /// The producer is feeding paths; workers consume them.
    Producing,
    /// The producer is done; workers drain what is left.
    Draining,
    /// Every worker has stopped.
    Done,
}

/// What a worker does before taking its next item.
#[derive(Debug, Clone, Copy, PartialEq, Eq, Structural)]
pub enum WorkerStep {
    /// Take the item now.
    Proceed,
    /// More buffers exist than budgeted: pause briefly, then take the item.
    PauseThenProceed,
}

/// Soft backpressure: a worker pauses before its next item while the buffer
/// pool holds more buffers than its budget.
pub fn worker_step(allocated_buffers: usize, max_buffers: usize) -> (r: WorkerStep)
    ensures
        r == (if allocated_buffers > max_buffers {
            WorkerStep::PauseThenProceed
        } else {
            WorkerStep::Proceed
        }),
{
    if allocated_buffers > max_buffers {
        WorkerStep::PauseThenProceed
    } else {
        WorkerStep::Proceed
    }
}

/// The counts of a run, as contracts see them.
pub struct LedgerView {
    pub phase: RunPhase,
    /// Paths the producer has sent.
    pub produced: nat,
    /// Paths a worker has taken and handed to the callback.
    pub offered: nat,
    /// Of those, the ones whose callback failed.
    pub failed: nat,
    /// Workers started.
    pub workers: nat,
    /// Workers stopped.
    pub exited: nat,
}

impl LedgerView {
    /// The run's invariant.
    pub open spec fn consistent(self) -> bool {
        &&& self.failed <= self.offered
        &&& self.offered <= self.produced
        &&& self.exited <= self.workers
        &&& self.phase == RunPhase::Planning ==> self.produced == 0 && self.workers == 0
        &&& self.phase == RunPhase::Producing ==> self.exited == 0
        &&& self.phase == RunPhase::Done ==> self.offered == self.produced && self.exited
            == self.workers
    }

    /// After the run starts with `workers` workers.
    pub open spec fn after_start(self, workers: nat) -> LedgerView {
        LedgerView { phase: RunPhase::Producing, workers, ..self }
    }

    /// After the producer sends one more path.
    pub open spec fn after_produced(self) -> LedgerView {
        LedgerView { produced: self.produced + 1, ..self }
    }

    /// After the producer closes its side of the channel.
    pub open spec fn after_producer_finished(self) -> LedgerView {
        LedgerView { phase: RunPhase::Draining, ..self }
    }

    /// After a worker's callback returns, successfully or not: the item counts
    /// as offered either way.
    pub open spec fn after_item(self, ok: bool) -> LedgerView {
        LedgerView {
            offered: self.offered + 1,
            failed: if ok {
                self.failed
            } else {
                self.failed + 1
            },
            ..self
        }
    }

    /// After a worker stops on a closed, empty channel.
    pub open spec fn after_worker_exited(self) -> LedgerView {
        LedgerView {
            exited: self.exited + 1,
            phase: if self.exited + 1 == self.workers {
                RunPhase::Done
            } else {
                self.phase
            },
            ..self
        }
    }

    /// After `n` paths are produced.
    pub open spec fn after_produced_n(self, n: nat) -> LedgerView
        decreases n,
    {
        if n == 0 {
            self
        } else {
            self.after_produced().after_produced_n((n - 1) as nat)
        }
    }

    /// After items finish with the given outcomes, in order.
    pub open spec fn after_items(self, outcomes: Seq<bool>) -> LedgerView
        decreases outcomes.len(),
    {
        if outcomes.len() == 0 {
            self
        } else {
            self.after_item(outcomes[0]).after_items(outcomes.drop_first())
        }
    }

    /// After `n` workers stop.
    pub open spec fn after_exits(self, n: nat) -> LedgerView
        decreases n,
    {
        if n == 0 {
            self
        } else {
            self.after_worker_exited().after_exits((n - 1) as nat)
        }
    }
}

/// The number of failed outcomes.
pub open spec fn failures(outcomes: Seq<bool>) -> nat
    decreases outcomes.len(),
{
    if outcomes.len() == 0 {
        0
    } else {
        (if outcomes[0] {
            0nat
        } else {
            1nat
        }) + failures(outcomes.drop_first())
    }
}

/// The bookkeeping of one pipeline run.
pub struct RunLedger {
    phase: RunPhase,
    produced: u64,
    offered: u64,
    failed: u64,
    workers: usize,
    exited: usize,
}

impl View for RunLedger {
    type V = LedgerView;

    closed spec fn view(&self) -> LedgerView {
        LedgerView {
            phase: self.phase,
            produced: self.produced as nat,
            offered: self.offered as nat,
            failed: self.failed as nat,
            workers: self.workers as nat,
            exited: self.exited as nat,
        }
    }
}

impl RunLedger {
    /// A ledger before the run starts.
    pub fn new() -> (r: RunLedger)
        ensures
            r@ == (LedgerView {
                phase: RunPhase::Planning,
                produced: 0,
                offered: 0,
                failed: 0,
                workers: 0,
                exited: 0,
            }),
            r@.consistent(),
    {
        RunLedger { phase: RunPhase::Planning, produced: 0, offered: 0, failed: 0, workers: 0, exited: 0 }
    }

    /// Starts the run with `workers` workers (at least one).
    pub fn start(&mut self, workers: usize)
        requires
            old(self)@.consistent(),
            old(self)@.phase == RunPhase::Planning,
            workers >= 1,
        ensures
            final(self)@ == old(self)@.after_start(workers as nat),
            final(self)@.consistent(),
    {
        self.phase = RunPhase::Producing;
        self.workers = workers;
    }

    /// Records that the producer sent one more path.
    pub fn path_produced(&mut self)
        requires
            old(self)@.consistent(),
            old(self)@.phase == RunPhase::Producing,
            old(self)@.produced < u64::MAX,
        ensures
            final(self)@ == old(self)@.after_produced(),
            final(self)@.consistent(),
    {
        self.produced = self.produced + 1;
    }

    /// Records that the producer has sent everything and closed its side.
    pub fn producer_finished(&mut self)
        requires
            old(self)@.consistent(),
            old(self)@.phase == RunPhase::Producing,
        ensures
            final(self)@ == old(self)@.after_producer_finished(),
            final(self)@.consistent(),
    {
        self.phase = RunPhase::Draining;
    }

    /// Whether an item can be recorded as finished: one was produced and not
    /// yet counted.
    pub fn can_finish_item(&self) -> (r: bool)
        ensures
            r == ((self@.phase == RunPhase::Producing || self@.phase == RunPhase::Draining)
                && self@.offered < self@.produced),
    {
        (self.phase == RunPhase::Producing || self.phase == RunPhase::Draining) && self.offered
            < self.produced
    }

    /// Records that a worker's callback returned for one item; `ok` is false
    /// when it failed. The item counts toward the total either way.
    pub fn item_finished(&mut self, ok: bool)
        requires
            old(self)@.consistent(),
            old(self)@.phase == RunPhase::Producing || old(self)@.phase == RunPhase::Draining,
            old(self)@.offered < old(self)@.produced,
        ensures
            final(self)@ == old(self)@.after_item(ok),
            final(self)@.consistent(),
    {
        self.offered = self.offered + 1;
        if !ok {
            self.failed = self.failed + 1;
        }
    }

    /// Whether a worker may stop: the producer is done and every produced
    /// item has been counted.
    pub fn can_exit_worker(&self) -> (r: bool)
        ensures
            r == (self@.phase == RunPhase::Draining && self@.offered == self@.produced
                && self@.exited < self@.workers),
    {
        self.phase == RunPhase::Draining && self.offered == self.produced && self.exited
            < self.workers
    }

    /// Records that a worker stopped; the run is done when the last one does.
    pub fn worker_exited(&mut self)
        requires
            old(self)@.consistent(),
            old(self)@.phase == RunPhase::Draining,
            old(self)@.offered == old(self)@.produced,
            old(self)@.exited < old(self)@.workers,
        ensures
            final(self)@ == old(self)@.after_worker_exited(),
            final(self)@.consistent(),
    {
        self.exited = self.exited + 1;
        if self.exited == self.workers {
            self.phase = RunPhase::Done;
        }
    }

    /// Where the run stands.
    pub fn phase(&self) -> (r: RunPhase)
        ensures
            r == self@.phase,
    {
        self.phase
    }

    /// Paths produced so far.
    pub fn produced(&self) -> (r: u64)
        ensures
            r == self@.produced,
    {
        self.produced
    }

    /// Items handed to the callback so far.
    pub fn offered(&self) -> (r: u64)
        ensures
            r == self@.offered,
    {
        self.offered
    }

    /// Items whose callback failed so far.
    pub fn failed(&self) -> (r: u64)
        ensures
            r == self@.failed,
    {
        self.failed
    }

    /// The result of a finished run: the number of items offered to a worker,
    /// which is every path produced.
    pub fn total(&self) -> (r: u64)
        requires
            self@.consistent(),
            self@.phase == RunPhase::Done,
        ensures
            r == self@.offered,
            r == self@.produced,
    {
        self.offered
    }
}

/// Completeness and fault tolerance of a run: when `n` paths are produced,
/// each item then finishes with an outcome (`outcomes`, one per path, any of
/// them failures), and all workers stop, the run is done, its total is `n`,
/// and exactly the failed outcomes are counted as failures.
pub proof fn lemma_run_counts_every_path(workers: nat, n: nat, outcomes: Seq<bool>)
    requires
        workers >= 1,
        outcomes.len() == n,
    ensures
        ({
            let start = (LedgerView {
                phase: RunPhase::Planning,
                produced: 0,
                offered: 0,
                failed: 0,
                workers: 0,
                exited: 0,
            });
            let end = start.after_start(workers).after_produced_n(n).after_producer_finished().after_items(
                outcomes,
            ).after_exits(workers);
            &&& end.consistent()
            &&& end.phase == RunPhase::Done
            &&& end.offered == n
            &&& end.produced == n
            &&& end.failed == failures(outcomes)
        }),
{
    let start = (LedgerView {
        phase: RunPhase::Planning,
        produced: 0,
        offered: 0,
        failed: 0,
        workers: 0,
        exited: 0,
    });
    let s1 = start.after_start(workers);
    lemma_produced_n(s1, n);
    let s2 = s1.after_produced_n(n);
    let s3 = s2.after_producer_finished();
    lemma_items(s3, outcomes);
    let s4 = s3.after_items(outcomes);
    lemma_exits(s4, workers);
    lemma_failures_bound(outcomes);
}

/// Producing `n` paths adds `n` to the produced count and nothing else.
proof fn lemma_produced_n(v: LedgerView, n: nat)
    ensures
        v.after_produced_n(n) == (LedgerView { produced: v.produced + n, ..v }),
    decreases n,
{
    if n > 0 {
        lemma_produced_n(v.after_produced(), (n - 1) as nat);
    }
}

/// Finishing items with `outcomes` adds their number to the offered count and
/// their failures to the failed count.
proof fn lemma_items(v: LedgerView, outcomes: Seq<bool>)
    ensures
        v.after_items(outcomes) == (LedgerView {
            offered: v.offered + outcomes.len(),
            failed: v.failed + failures(outcomes),
            ..v
        }),
    decreases outcomes.len(),
{
    if outcomes.len() > 0 {
        lemma_items(v.after_item(outcomes[0]), outcomes.drop_first());
    }
}

/// When `k` workers are left, `k` exits end the run.
proof fn lemma_exits(v: LedgerView, k: nat)
    requires
        v.exited + k == v.workers,
        k >= 1,
    ensures
        v.after_exits(k).phase == RunPhase::Done,
        v.after_exits(k).exited == v.workers,
        v.after_exits(k).workers == v.workers,
        v.after_exits(k).produced == v.produced,
        v.after_exits(k).offered == v.offered,
        v.after_exits(k).failed == v.failed,
    decreases k,
{
    let w = v.after_worker_exited();
    assert(v.after_exits(k) == w.after_exits((k - 1) as nat));
    if k > 1 {
        lemma_exits(w, (k - 1) as nat);
    } else {
        assert(w.after_exits(0) == w);
    }
}

/// There are no more failures than outcomes.
proof fn lemma_failures_bound(outcomes: Seq<bool>)
    ensures
        failures(outcomes) <= outcomes.len(),
    decreases outcomes.len(),
{
    if outcomes.len() > 0 {
        lemma_failures_bound(outcomes.drop_first());
    }
}

} // verus!

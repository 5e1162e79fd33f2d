//! Memory planning and the budgeted buffer pool.

use sysinfo::SystemExt;
use crate::text::{lower_of, str_eq, to_lower};
use vstd::prelude::*;

verus! {

/// Buffer size used in `Stream` mode (64 KiB).
pub const STREAM_BUFFER_BYTES: usize = 65536;

/// Buffer size used in `Balanced` mode (256 KiB).
pub const BALANCED_BUFFER_BYTES: usize = 262144;

/// Buffer size used in `Booster` mode (1 MiB).
pub const BOOSTER_BUFFER_BYTES: usize = 1048576;

/// RAM figure assumed when the host cannot report its memory (2 GiB).
pub const DEFAULT_SYSTEM_RAM_BYTES: u64 = 2147483648;

/// Point on the memory / throughput trade-off curve.
#[derive(Debug, Clone, Copy, PartialEq, Eq, Structural)]
pub enum MemoryMode {
    Stream,
    Balanced,
    Booster,
}

/// Buffer size of a mode, in bytes.
pub open spec fn mode_buffer_size(mode: MemoryMode) -> nat {
    match mode {
        MemoryMode::Stream => 65536,
        MemoryMode::Balanced => 262144,
        MemoryMode::Booster => 1048576,
    }
}

/// Buffers budgeted for each worker thread in a mode.
pub open spec fn mode_buffers_per_thread(mode: MemoryMode) -> nat {
    match mode {
        MemoryMode::Stream => 2,
        MemoryMode::Balanced => 4,
        MemoryMode::Booster => 6,
    }
}

pub open spec fn nat_max(a: nat, b: nat) -> nat {
    if a >= b {
        a
    } else {
        b
    }
}

pub open spec fn nat_min(a: nat, b: nat) -> nat {
    if a <= b {
        a
    } else {
        b
    }
}

/// A count that saturates at the largest `usize`.
pub open spec fn saturate_usize(n: nat) -> nat {
    nat_min(n, usize::MAX as nat)
}

/// The CPU count actually used: a probe that reports nothing counts as one CPU.
pub open spec fn effective_cpus(cpus: nat) -> nat {
    if cpus == 0 {
        1
    } else {
        cpus
    }
}

/// Worker threads a mode asks for on a host with `cpus` logical CPUs.
pub open spec fn mode_base_threads(mode: MemoryMode, cpus: nat) -> nat {
    match mode {
        MemoryMode::Stream => nat_max(1, effective_cpus(cpus) / 2),
        MemoryMode::Balanced => effective_cpus(cpus),
        MemoryMode::Booster => nat_max(1, saturate_usize(2 * effective_cpus(cpus))),
    }
}

/// Threads requested before the memory budget is applied: a positive override
/// wins over the mode's heuristic.
pub open spec fn requested_threads(mode: MemoryMode, threads_override: Option<usize>, cpus: nat) -> nat {
    match threads_override {
        Some(t) => if t > 0 {
            t as nat
        } else {
            mode_base_threads(mode, cpus)
        },
        None => mode_base_threads(mode, cpus),
    }
}

/// Buffers wanted for `threads` workers before the memory budget is applied.
pub open spec fn desired_buffers(mode: MemoryMode, threads: nat) -> nat {
    nat_max(1, saturate_usize(threads * mode_buffers_per_thread(mode)))
}

/// The memory the plan may use: the budget, but never less than one buffer.
pub open spec fn max_allowed_bytes(mode: MemoryMode, ram_budget: nat) -> nat {
    nat_max(ram_budget, mode_buffer_size(mode))
}

/// Buffers in the plan: the desired count, scaled down (floor, at least one)
/// when it does not fit the allowed memory.
pub open spec fn planned_buffers(mode: MemoryMode, threads: nat, ram_budget: nat) -> nat {
    let desired = desired_buffers(mode, threads);
    let allowed = max_allowed_bytes(mode, ram_budget);
    if desired * mode_buffer_size(mode) > allowed {
        nat_max(1, allowed / mode_buffer_size(mode))
    } else {
        desired
    }
}

/// Threads in the plan: never more workers than budgeted buffers.
pub open spec fn planned_threads(mode: MemoryMode, threads: nat, ram_budget: nat) -> nat {
    nat_min(threads, planned_buffers(mode, threads, ram_budget))
}

/// The RAM budget: the override if there is one, else the detected figure.
pub open spec fn ram_budget_of(max_ram_override: Option<u64>, detected_ram: nat) -> nat {
    match max_ram_override {
        Some(r) => r as nat,
        None => detected_ram,
    }
}

/// The plan for a mode, an optional thread override, a RAM budget and a CPU count.
pub open spec fn plan_spec(
    mode: MemoryMode,
    threads_override: Option<usize>,
    ram_budget: nat,
    cpus: nat,
) -> MemoryPlan {
    let t = requested_threads(mode, threads_override, cpus);
    MemoryPlan {
        mode,
        threads: planned_threads(mode, t, ram_budget) as usize,
        buffer_size: mode_buffer_size(mode) as usize,
        num_buffers: planned_buffers(mode, t, ram_budget) as usize,
        prefetch_listing: mode != MemoryMode::Stream,
    }
}

/// Immutable result of planning one pipeline run.
#[derive(Debug, Clone, Copy)]
pub struct MemoryPlan {
    pub mode: MemoryMode,
    pub threads: usize,
    pub buffer_size: usize,
    pub num_buffers: usize,
    pub prefetch_listing: bool,
}

impl MemoryPlan {
    /// Bytes held by all buffers of the plan.
    pub open spec fn total_bytes(&self) -> nat {
        self.buffer_size as nat * self.num_buffers as nat
    }

    /// Bytes held by all buffers of the plan, saturating at `u64::MAX`.
    pub fn total_buffer_bytes(&self) -> (r: u64)
        ensures
            r as nat == nat_min(self.total_bytes(), u64::MAX as nat),
    {
        let a = self.buffer_size as u64;
        let b = self.num_buffers as u64;
        if a == 0 || b == 0 {
            proof {
                assert(self.total_bytes() == 0) by (nonlinear_arith)
                    requires
                        self.buffer_size == 0 || self.num_buffers == 0,
                        self.total_bytes() == self.buffer_size as nat * self.num_buffers as nat,
                ;
            }
            0
        } else if a > u64::MAX / b {
            proof {
                assert(a * b > u64::MAX) by (nonlinear_arith)
                    requires
                        a > u64::MAX / b,
                        b > 0,
                ;
            }
            u64::MAX
        } else {
            proof {
                assert(a * b <= u64::MAX) by (nonlinear_arith)
                    requires
                        a <= u64::MAX / b,
                        b > 0,
                ;
            }
            a * b
        }
    }
}

impl MemoryMode {
    /// Mode of a name, compared case-insensitively; an unknown name gives
    /// `Balanced`.
    pub fn from_name(s: &str) -> (r: MemoryMode)
        ensures
            r == (match mode_named(lower_of(s@)) {
                Some(m) => m,
                None => MemoryMode::Balanced,
            }),
    {
        let lowered = to_lower(s);
        match MemoryMode::from_lowered(lowered.as_str()) {
            Some(m) => m,
            None => MemoryMode::Balanced,
        }
    }

    /// Mode of a lower-case name, if it names one.
    pub fn from_lowered(s: &str) -> (r: Option<MemoryMode>)
        ensures
            r == mode_named(s@),
    {
        if str_eq(s, "stream") {
            Some(MemoryMode::Stream)
        } else if str_eq(s, "booster") {
            Some(MemoryMode::Booster)
        } else if str_eq(s, "balanced") {
            Some(MemoryMode::Balanced)
        } else {
            None
        }
    }
}

/// Mode named by an already lower-cased name.
pub open spec fn mode_named(s: Seq<char>) -> Option<MemoryMode> {
    if s == "stream"@ {
        Some(MemoryMode::Stream)
    } else if s == "booster"@ {
        Some(MemoryMode::Booster)
    } else if s == "balanced"@ {
        Some(MemoryMode::Balanced)
    } else {
        None
    }
}

/// Plans one pipeline run from a mode, an optional thread override, an optional
/// RAM budget, the host's logical CPU count and the RAM the host reported.
///
/// A thread override of zero is ignored; a CPU count of zero counts as one; an
/// absent RAM report falls back to `DEFAULT_SYSTEM_RAM_BYTES`.
pub fn plan_memory(
    mode: MemoryMode,
    threads_override: Option<usize>,
    max_ram_override: Option<u64>,
    cpus: usize,
    detected_ram: Option<u64>,
) -> (r: MemoryPlan)
    ensures
        r == plan_spec(
            mode,
            threads_override,
            ram_budget_of(max_ram_override, fallback_ram(detected_ram)),
            cpus as nat,
        ),
{
    let c: usize = if cpus == 0 {
        1
    } else {
        cpus
    };
    let (base_threads, buf_size, per_thread): (usize, usize, usize) = match mode {
        MemoryMode::Stream => {
            let half: usize = c / 2;
            (if half >= 1 {
                half
            } else {
                1
            }, STREAM_BUFFER_BYTES, 2)
        },
        MemoryMode::Balanced => (c, BALANCED_BUFFER_BYTES, 4),
        MemoryMode::Booster => {
            let doubled: usize = saturating_mul_usize(c, 2);
            (if doubled >= 1 {
                doubled
            } else {
                1
            }, BOOSTER_BUFFER_BYTES, 6)
        },
    };
    let threads: usize = match threads_override {
        Some(t) => if t > 0 {
            t
        } else {
            base_threads
        },
        None => base_threads,
    };
    let product: usize = saturating_mul_usize(threads, per_thread);
    let desired: usize = if product >= 1 {
        product
    } else {
        1
    };
    let budget: u64 = match max_ram_override {
        Some(b) => b,
        None => match detected_ram {
            Some(d) => d,
            None => DEFAULT_SYSTEM_RAM_BYTES,
        },
    };
    let allowed: u128 = if (budget as u128) >= (buf_size as u128) {
        budget as u128
    } else {
        buf_size as u128
    };
    assert((desired as u128) * (buf_size as u128) <= u128::MAX) by (nonlinear_arith)
        requires
            desired <= usize::MAX,
            buf_size <= 1048576,
    ;
    let desired_memory: u128 = (desired as u128) * (buf_size as u128);
    let num_buffers: usize = if desired_memory > allowed {
        let fit: u128 = allowed / (buf_size as u128);
        if fit >= 1 {
            proof {
                assert(fit < desired) by (nonlinear_arith)
                    requires
                        fit == allowed / (buf_size as u128),
                        desired_memory == desired * buf_size,
                        desired_memory > allowed,
                        buf_size > 0,
                ;
            }
            fit as usize
        } else {
            1
        }
    } else {
        desired
    };
    let planned: usize = if num_buffers < threads {
        num_buffers
    } else {
        threads
    };
    MemoryPlan {
        mode,
        threads: planned,
        buffer_size: buf_size,
        num_buffers,
        prefetch_listing: match mode {
            MemoryMode::Stream => false,
            _ => true,
        },
    }
}

/// Product of two counts, saturating at `usize::MAX`.
pub fn saturating_mul_usize(a: usize, b: usize) -> (r: usize)
    ensures
        r as nat == saturate_usize(a as nat * b as nat),
{
    match a.checked_mul(b) {
        Some(p) => p,
        None => usize::MAX,
    }
}

/// The RAM figure used when no override is given.
pub open spec fn fallback_ram(detected_ram: Option<u64>) -> nat {
    match detected_ram {
        Some(d) => d as nat,
        None => DEFAULT_SYSTEM_RAM_BYTES as nat,
    }
}

/// Whether a plan meets the planner's guarantees under a RAM budget: at least
/// one thread and one buffer, no more threads than buffers, and buffers that
/// fit the budget (or are a single buffer).
pub open spec fn plan_within_bounds(p: MemoryPlan, ram_budget: nat) -> bool {
    &&& p.threads >= 1
    &&& p.num_buffers >= 1
    &&& p.threads <= p.num_buffers
    &&& p.total_bytes() <= nat_max(ram_budget, p.buffer_size as nat)
}

/// For every mode, override, budget and CPU count, the plan has at least one
/// thread and one buffer, no more threads than buffers, and its buffers never
/// exceed the larger of the budget and one buffer.
pub proof fn lemma_plan_bounds(
    mode: MemoryMode,
    threads_override: Option<usize>,
    ram_budget: nat,
    cpus: nat,
)
    requires
        cpus <= usize::MAX,
    ensures
        plan_within_bounds(plan_spec(mode, threads_override, ram_budget, cpus), ram_budget),
{
    let t = requested_threads(mode, threads_override, cpus);
    let buf = mode_buffer_size(mode);
    let desired = desired_buffers(mode, t);
    let allowed = max_allowed_bytes(mode, ram_budget);
    let nb = planned_buffers(mode, t, ram_budget);
    assert(t >= 1);
    assert(t <= usize::MAX);
    assert(desired <= usize::MAX);
    if desired * buf > allowed {
        let fit = allowed / buf;
        assert(fit * buf <= allowed) by (nonlinear_arith)
            requires
                fit == allowed / buf,
                buf > 0,
        ;
        assert(allowed >= buf);
        assert(fit >= 1) by (nonlinear_arith)
            requires
                fit == allowed / buf,
                allowed >= buf,
                buf > 0,
        ;
        assert(fit <= desired) by (nonlinear_arith)
            requires
                fit == allowed / buf,
                desired * buf > allowed,
                buf > 0,
        ;
        assert(nb == fit);
        assert(nb * buf <= allowed);
    } else {
        assert(nb == desired);
    }
    assert(nb <= usize::MAX);
    let p = plan_spec(mode, threads_override, ram_budget, cpus);
    assert(p.num_buffers as nat == nb);
    assert(p.buffer_size as nat == buf);
    assert(p.total_bytes() == buf * nb);
    assert(buf * nb == nb * buf) by (nonlinear_arith);
}

/// Relies on sysinfo's `System::total_memory` after `refresh_memory`, which
/// reports the host's RAM in bytes; nothing is assumed of the figure.
#[verifier::external_body]
fn probe_total_memory() -> (r: u64) {
    let mut sys = sysinfo::System::new();
    sys.refresh_memory();
    sys.total_memory()
}

/// Relies on sysinfo's `System::cpus` after `refresh_cpu`, which lists the
/// host's logical CPUs; nothing is assumed of the count.
#[verifier::external_body]
fn probe_logical_cpus() -> (r: usize) {
    let mut sys = sysinfo::System::new();
    sys.refresh_cpu();
    sys.cpus().len()
}

/// Total RAM of the host in bytes, or `None` when the host reports none.
pub fn detect_system_ram_bytes() -> (r: Option<u64>)
    ensures
        r matches Some(b) ==> b > 0,
{
    let b = probe_total_memory();
    if b == 0 {
        None
    } else {
        Some(b)
    }
}

/// Plans one pipeline run on this host: its logical CPU count and RAM are
/// probed, then `plan_memory` decides.
pub fn recommend_config(
    mode: MemoryMode,
    threads_override: Option<usize>,
    max_ram_override: Option<u64>,
) -> (r: MemoryPlan)
    ensures
        exists|cpus: usize, ram: Option<u64>|
            r == plan_spec(
                mode,
                threads_override,
                ram_budget_of(max_ram_override, fallback_ram(ram)),
                cpus as nat,
            ),
        r.mode == mode,
        r.buffer_size as nat == mode_buffer_size(mode),
        r.prefetch_listing == (mode != MemoryMode::Stream),
        r.threads >= 1,
        r.num_buffers >= 1,
        r.threads <= r.num_buffers,
        max_ram_override matches Some(b) ==> r.total_bytes() <= nat_max(
            b as nat,
            r.buffer_size as nat,
        ),
{
    let cpus = probe_logical_cpus();
    let ram = detect_system_ram_bytes();
    let r = plan_memory(mode, threads_override, max_ram_override, cpus, ram);
    proof {
        lemma_plan_bounds(
            mode,
            threads_override,
            ram_budget_of(max_ram_override, fallback_ram(ram)),
            cpus as nat,
        );
    }
    r
}

/// The counters of a buffer pool, as contracts see them.
pub struct PoolView {
    /// Buffers idle in the pool.
    pub idle: nat,
    /// Buffers that exist: idle ones and checked-out ones.
    pub allocated: nat,
    /// The soft budget of buffers.
    pub budget: nat,
    /// Size of every buffer handed out, in bytes.
    pub buf_len: nat,
    /// How many buffers were handed out beyond the budget.
    pub advisories: nat,
}

impl PoolView {
    /// No more idle buffers than allocated ones nor than the budget.
    pub open spec fn consistent(self) -> bool {
        self.idle <= self.allocated && self.idle <= self.budget
    }

    /// Buffers checked out and not yet handed back.
    pub open spec fn checked_out(self) -> nat {
        (self.allocated - self.idle) as nat
    }

    /// The counters after a checkout within the budget that succeeded: an idle
    /// buffer is taken, or else a fresh one is allocated.
    pub open spec fn after_try_get(self) -> PoolView {
        if self.idle > 0 {
            PoolView { idle: (self.idle - 1) as nat, ..self }
        } else {
            PoolView { allocated: self.allocated + 1, ..self }
        }
    }

    /// Whether a checkout within the budget succeeds.
    pub open spec fn can_get_within_budget(self) -> bool {
        self.idle > 0 || self.allocated < self.budget
    }

    /// The counters after `get`: within the budget when possible, else one
    /// more buffer beyond it and one more advisory.
    pub open spec fn after_get(self) -> PoolView {
        if self.can_get_within_budget() {
            self.after_try_get()
        } else {
            PoolView {
                allocated: self.allocated + 1,
                advisories: nat_min(self.advisories + 1, u64::MAX as nat),
                ..self
            }
        }
    }

    /// The counters after a buffer is handed back: kept idle while fewer than
    /// the budget are idle (a buffer that was not checked out counts as a new
    /// allocation), else dropped, the allocated count going down by one but not
    /// below the idle count.
    pub open spec fn after_put(self) -> PoolView {
        if self.idle < self.budget {
            PoolView {
                idle: self.idle + 1,
                allocated: nat_max(self.allocated, self.idle + 1),
                ..self
            }
        } else if self.allocated > self.idle {
            PoolView { allocated: (self.allocated - 1) as nat, ..self }
        } else {
            self
        }
    }

    /// The counters after `n` calls of `get`.
    pub open spec fn after_gets(self, n: nat) -> PoolView
        decreases n,
    {
        if n == 0 {
            self
        } else {
            self.after_get().after_gets((n - 1) as nat)
        }
    }

    /// The counters after `n` buffers are handed back.
    pub open spec fn after_puts(self, n: nat) -> PoolView
        decreases n,
    {
        if n == 0 {
            self
        } else {
            self.after_put().after_puts((n - 1) as nat)
        }
    }
}

/// A budgeted pool of reusable byte buffers.
///
/// `max_buffers` is a soft budget: when it is used up and no buffer is idle,
/// `get` still hands out a fresh buffer and records an over-budget advisory.
pub struct BufferPool {
    idle: Vec<Vec<u8>>,
    max_buffers: usize,
    allocated: usize,
    buf_size: usize,
    advisories: u64,
}

impl View for BufferPool {
    type V = PoolView;

    closed spec fn view(&self) -> PoolView {
        PoolView {
            idle: self.idle@.len(),
            allocated: self.allocated as nat,
            budget: self.max_buffers as nat,
            buf_len: self.buf_size as nat,
            advisories: self.advisories as nat,
        }
    }
}

/// A buffer checked out of a pool; its holder owns it exclusively until it is
/// handed back with `BufferPool::give_back` or `BufferPool::put`.
pub struct PooledBuffer {
    buf: Vec<u8>,
}

impl PooledBuffer {
    /// The bytes of the buffer.
    pub closed spec fn bytes(&self) -> Seq<u8> {
        self.buf@
    }

    /// Takes ownership of the underlying bytes.
    pub fn into_inner(self) -> (r: Vec<u8>)
        ensures
            r@ == self.bytes(),
    {
        self.buf
    }

    /// The bytes of the buffer, shared.
    pub fn as_slice(&self) -> (r: &[u8])
        ensures
            r@ == self.bytes(),
    {
        self.buf.as_slice()
    }

    /// The bytes of the buffer, for writing.
    pub fn as_mut_slice(&mut self) -> (r: &mut [u8])
        ensures
            r@ == old(self).bytes(),
    {
        self.buf.as_mut_slice()
    }

    /// Length of the buffer in bytes.
    pub fn len(&self) -> (r: usize)
        ensures
            r == self.bytes().len(),
    {
        self.buf.len()
    }
}

impl BufferPool {
    /// Every idle buffer has the configured size.
    pub closed spec fn idle_sized(&self) -> bool {
        forall|i: int| 0 <= i < self.idle@.len() ==> #[trigger] self.idle@[i]@.len() == self.buf_size
    }

    /// The pool's invariant.
    pub open spec fn wf(&self) -> bool {
        self@.consistent() && self.idle_sized()
    }

    /// A pool with `num_buffers` idle buffers of `buf_size` bytes, and a budget
    /// of `num_buffers`.
    pub fn new(num_buffers: usize, buf_size: usize) -> (r: BufferPool)
        ensures
            r.wf(),
            r@ == (PoolView {
                idle: num_buffers as nat,
                allocated: num_buffers as nat,
                budget: num_buffers as nat,
                buf_len: buf_size as nat,
                advisories: 0,
            }),
    {
        let mut idle: Vec<Vec<u8>> = Vec::with_capacity(num_buffers);
        let mut i: usize = 0;
        while i < num_buffers
            invariant
                i <= num_buffers,
                idle@.len() == i,
                forall|j: int| 0 <= j < idle@.len() ==> #[trigger] idle@[j]@.len() == buf_size,
            decreases num_buffers - i,
        {
            idle.push(vec![0u8; buf_size]);
            i = i + 1;
        }
        BufferPool { idle, max_buffers: num_buffers, allocated: num_buffers, buf_size, advisories: 0 }
    }

    /// Checks out a buffer within the budget: an idle one if there is one, else
    /// a fresh one while fewer than `max_buffers` exist; `None`, with nothing
    /// changed, when the budget is used up and nothing is idle.
    pub fn try_get(&mut self) -> (r: Option<PooledBuffer>)
        requires
            old(self).wf(),
        ensures
            final(self).wf(),
            r is Some == old(self)@.can_get_within_budget(),
            r is Some ==> final(self)@ == old(self)@.after_try_get(),
            r is None ==> final(self)@ == old(self)@,
            r matches Some(b) ==> b.bytes().len() == old(self)@.buf_len,
    {
        match self.idle.pop() {
            Some(mut b) => {
                b.resize(self.buf_size, 0u8);
                Some(PooledBuffer { buf: b })
            },
            None => {
                if self.allocated < self.max_buffers {
                    self.allocated = self.allocated + 1;
                    Some(PooledBuffer { buf: vec![0u8; self.buf_size] })
                } else {
                    None
                }
            },
        }
    }

    /// Checks out a buffer: within the budget when `try_get` can, else a fresh
    /// one beyond it, recording an over-budget advisory. Never fails.
    pub fn get(&mut self) -> (r: PooledBuffer)
        requires
            old(self).wf(),
            old(self)@.allocated < usize::MAX,
        ensures
            final(self).wf(),
            final(self)@ == old(self)@.after_get(),
            r.bytes().len() == old(self)@.buf_len,
    {
        match self.try_get() {
            Some(b) => b,
            None => {
                self.allocated = self.allocated + 1;
                self.advisories = self.advisories.saturating_add(1);
                PooledBuffer { buf: vec![0u8; self.buf_size] }
            },
        }
    }

    /// Takes a buffer back: it is resized to the configured size and kept idle
    /// while fewer than `max_buffers` are idle; otherwise it is dropped and the
    /// allocated count goes down by one (never below the idle count).
    pub fn put(&mut self, buf: Vec<u8>)
        requires
            old(self).wf(),
        ensures
            final(self).wf(),
            final(self)@ == old(self)@.after_put(),
    {
        let mut b = buf;
        if self.idle.len() < self.max_buffers {
            b.resize(self.buf_size, 0u8);
            if self.allocated == self.idle.len() {
                self.allocated = self.allocated + 1;
            }
            self.idle.push(b);
            assert(forall|i: int|
                0 <= i < self.idle@.len() ==> #[trigger] self.idle@[i]@.len() == self.buf_size);
        } else if self.allocated > self.idle.len() {
            self.allocated = self.allocated - 1;
        }
    }

    /// Hands a checked-out buffer back to the pool; see `put`.
    pub fn give_back(&mut self, b: PooledBuffer)
        requires
            old(self).wf(),
        ensures
            final(self).wf(),
            final(self)@ == old(self)@.after_put(),
    {
        self.put(b.into_inner());
    }

    /// Size of every buffer handed out, in bytes.
    pub fn buf_size(&self) -> (r: usize)
        ensures
            r == self@.buf_len,
    {
        self.buf_size
    }

    /// The soft budget of buffers.
    pub fn max_buffers(&self) -> (r: usize)
        ensures
            r == self@.budget,
    {
        self.max_buffers
    }

    /// Buffers that exist: idle ones and checked-out ones.
    pub fn allocated_buffers(&self) -> (r: usize)
        ensures
            r == self@.allocated,
    {
        self.allocated
    }

    /// Buffers idle in the pool.
    pub fn idle_buffers(&self) -> (r: usize)
        ensures
            r == self@.idle,
    {
        self.idle.len()
    }

    /// How many buffers were handed out beyond the budget.
    pub fn over_budget_advisories(&self) -> (r: u64)
        ensures
            r == self@.advisories,
    {
        self.advisories
    }

    /// Whether more buffers exist than the budget allows, in which case a
    /// worker should pause briefly before taking its next item.
    pub fn is_over_budget(&self) -> (r: bool)
        ensures
            r == (self@.allocated > self@.budget),
    {
        self.allocated > self.max_buffers
    }
}

/// Checking out `budget` buffers from a pool with nothing checked out and then
/// handing them all back leaves a buffer idle (when the budget is positive), so
/// a further `get` reuses it and the allocated count does not grow.
pub proof fn lemma_pool_recovery(v: PoolView)
    requires
        v.consistent(),
        v.checked_out() == 0,
        v.budget > 0,
    ensures
        v.after_gets(v.budget).after_puts(v.budget).idle > 0,
        v.after_gets(v.budget).after_puts(v.budget).after_get().allocated == v.after_gets(
            v.budget,
        ).after_puts(v.budget).allocated,
{
    lemma_gets_keep_counts(v, v.budget);
    let w = v.after_gets(v.budget);
    lemma_puts_fill_idle(w, v.budget);
}

/// After `n` gets from a consistent pool, the pool stays consistent, its budget
/// is unchanged, and `n` more buffers are checked out.
pub proof fn lemma_gets_keep_counts(v: PoolView, n: nat)
    requires
        v.consistent(),
    ensures
        v.after_gets(n).consistent(),
        v.after_gets(n).budget == v.budget,
        v.after_gets(n).checked_out() == v.checked_out() + n,
    decreases n,
{
    if n > 0 {
        lemma_gets_keep_counts(v.after_get(), (n - 1) as nat);
    }
}

/// Handing back `n` buffers to a consistent pool whose budget is positive
/// leaves at least one buffer idle.
pub proof fn lemma_puts_fill_idle(v: PoolView, n: nat)
    requires
        v.consistent(),
        v.budget > 0,
        n > 0,
    ensures
        v.after_puts(n).consistent(),
        v.after_puts(n).idle > 0,
        v.after_puts(n).budget == v.budget,
    decreases n,
{
    let w = v.after_put();
    assert(w.consistent());
    assert(w.idle > 0);
    if n > 1 {
        lemma_puts_keep_idle(w, (n - 1) as nat);
    }
}

/// Handing back buffers never empties the idle list of a consistent pool.
proof fn lemma_puts_keep_idle(v: PoolView, n: nat)
    requires
        v.consistent(),
        v.idle > 0,
    ensures
        v.after_puts(n).consistent(),
        v.after_puts(n).idle > 0,
        v.after_puts(n).budget == v.budget,
    decreases n,
{
    if n > 0 {
        lemma_puts_keep_idle(v.after_put(), (n - 1) as nat);
    }
}

} // verus!

//! The daemon's per-cycle decisions.
//!
//! Each cycle reduces one result batch through the configured policy to a
//! selection, and decides whether to publish it: an empty selection is
//! reported and skipped, the previously published configuration stays
//! untouched. A two-state machine says when a cycle may begin: one cycle at
//! a time, driven by the timer, with the first one starting immediately.
//! The timer itself, the probes and the publisher run outside this library;
//! a publish failure is reported there and the next cycle retries on its
//! own.

use vstd::prelude::*;

use crate::config::OperationMode;
use crate::dns_checker::DnsCheckResult;
use crate::selector::{
    best_latency_spec,
    first_online_spec,
    online_addresses,
    select_best_dns,
    select_first_online_dns,
};

verus! {

/// What the configured policy selects from a batch.
pub open spec fn selection_spec(
    mode: OperationMode,
    batch: Seq<DnsCheckResult>,
    count: int,
) -> Seq<Seq<char>> {
    match mode {
        OperationMode::FirstOnline => first_online_spec(batch, count),
        OperationMode::Benchmark => best_latency_spec(batch, count),
    }
}

/// One cycle's outcome: the addresses the policy chose, and whether they are
/// handed to the publisher.
pub struct CyclePlan {
    pub selection: Vec<String>,
    pub publish: bool,
}

/// Reduce one result batch through the configured policy. The plan publishes
/// exactly when something was selected: an empty selection is skipped, never
/// an error, and leaves the published configuration untouched.
pub fn plan_cycle(mode: OperationMode, batch: &Vec<DnsCheckResult>, count: usize) -> (plan:
    CyclePlan)
    ensures
        plan.selection.deep_view() == selection_spec(mode, batch@, count as int),
        plan.publish == (plan.selection@.len() != 0),
{
    let selection = match mode {
        OperationMode::FirstOnline => select_first_online_dns(batch, count),
        OperationMode::Benchmark => select_best_dns(batch, count),
    };
    let publish = selection.len() != 0;
    CyclePlan { selection, publish }
}

/// Selection is a function of the batch and the requested count alone: the
/// same policy over an identical, unchanged batch yields an identical
/// selection, however often it is run.
pub proof fn lemma_selection_idempotent(
    mode: OperationMode,
    batch: Seq<DnsCheckResult>,
    count: int,
    first: Seq<Seq<char>>,
    second: Seq<Seq<char>>,
)
    requires
        first == selection_spec(mode, batch, count),
        second == selection_spec(mode, batch, count),
    ensures
        first == second,
{
}

/// Where the scheduler stands: waiting for the timer, or inside a cycle.
#[derive(Clone, Copy, Debug, PartialEq, Eq, Structural)]
pub enum SchedulerState {
    Idle,
    Running,
}

/// What the outside loop observed: the process started, the timer fired, or
/// the running cycle finished (published or not).
#[derive(Clone, Copy, Debug, PartialEq, Eq, Structural)]
pub enum SchedulerEvent {
    Start,
    Tick,
    CycleDone,
}

/// The scheduler's transition table: `Start` and `Tick` begin a cycle only
/// from `Idle`, `CycleDone` returns to `Idle`; nothing else moves it.
pub open spec fn spec_scheduler_step(
    state: SchedulerState,
    event: SchedulerEvent,
) -> (SchedulerState, bool) {
    match (state, event) {
        (SchedulerState::Idle, SchedulerEvent::Start) => (SchedulerState::Running, true),
        (SchedulerState::Idle, SchedulerEvent::Tick) => (SchedulerState::Running, true),
        (SchedulerState::Idle, SchedulerEvent::CycleDone) => (SchedulerState::Idle, false),
        (SchedulerState::Running, SchedulerEvent::CycleDone) => (SchedulerState::Idle, false),
        (SchedulerState::Running, _) => (SchedulerState::Running, false),
    }
}

/// Advance the scheduler by one observed event; the flag says whether a new
/// cycle begins now. A cycle begins only from `Idle`, so a tick that fires
/// while a cycle still runs never starts a second, overlapping one; the
/// first cycle begins immediately on `Start`.
pub fn scheduler_step(state: SchedulerState, event: SchedulerEvent) -> (r: (
    SchedulerState,
    bool,
))
    ensures
        r == spec_scheduler_step(state, event),
        r.1 ==> r.0 is Running,
        r.1 <==> (state is Idle && !(event is CycleDone)),
{
    match (state, event) {
        (SchedulerState::Idle, SchedulerEvent::Start) => (SchedulerState::Running, true),
        (SchedulerState::Idle, SchedulerEvent::Tick) => (SchedulerState::Running, true),
        (SchedulerState::Idle, SchedulerEvent::CycleDone) => (SchedulerState::Idle, false),
        (SchedulerState::Running, SchedulerEvent::CycleDone) => (SchedulerState::Idle, false),
        (SchedulerState::Running, SchedulerEvent::Start) => (SchedulerState::Running, false),
        (SchedulerState::Running, SchedulerEvent::Tick) => (SchedulerState::Running, false),
    }
}

/// How many entries of the batch are reachable.
pub fn count_online(results: &Vec<DnsCheckResult>) -> (n: usize)
    ensures
        n == online_addresses(results@).len(),
        n <= results@.len(),
{
    let len = results.len();
    let mut n: usize = 0;
    let mut i: usize = 0;
    while i < len
        invariant
            i <= len,
            len == results@.len(),
            n == online_addresses(results@.take(i as int)).len(),
            n <= i,
        decreases len - i,
    {
        proof {
            assert(results@.take(i + 1).drop_last() =~= results@.take(i as int));
            assert(results@.take(i + 1).last() == results@[i as int]);
        }
        if results[i].is_online {
            n += 1;
        }
        i += 1;
    }
    proof {
        assert(results@.take(len as int) =~= results@);
    }
    n
}

/// The position of the first batch entry with the given address, if any.
pub fn find_by_address(results: &Vec<DnsCheckResult>, address: &String) -> (r: Option<usize>)
    ensures
        match r {
            Some(i) => i < results@.len() && results@[i as int].address@ == address@ && forall|
                j: int,
            | 0 <= j < i ==> (#[trigger] results@[j]).address@ != address@,
            None => forall|j: int|
                0 <= j < results@.len() ==> (#[trigger] results@[j]).address@ != address@,
        },
{
    let len = results.len();
    let mut i: usize = 0;
    while i < len
        invariant
            i <= len,
            len == results@.len(),
            forall|j: int| 0 <= j < i ==> (#[trigger] results@[j]).address@ != address@,
        decreases len - i,
    {
        if results[i].address == *address {
            return Some(i);
        }
        i += 1;
    }
    None
}

} // verus!

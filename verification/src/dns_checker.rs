//! Probe results and the prober's batch invariant.
//!
//! A probe is one name-resolution attempt against one candidate address with
//! a bounded timeout; the network call itself is made outside this library.
//! Every outcome of such a call — an answer, a refusal, a timeout — is
//! normalised here into a [`DnsCheckResult`]: failures are swallowed into
//! `is_online == false` and never surface as errors. A batch of results is
//! assembled in candidate order, one result per candidate, whatever order
//! the probes completed in.

use vstd::prelude::*;

use crate::config::DnsServer;

verus! {

/// The outcome of one probe against one candidate server.
///
/// Latency is the elapsed time of a successful probe, in microseconds; it is
/// present only when the probe succeeded and the run measured timing.
#[derive(Clone, Debug)]
pub struct DnsCheckResult {
    pub address: String,
    pub name: String,
    pub is_online: bool,
    pub latency_us: Option<u64>,
}

impl DnsCheckResult {
    /// A result never carries a latency for a server it reports offline.
    pub open spec fn well_formed(self) -> bool {
        self.latency_us is Some ==> self.is_online
    }

    /// The result of a reachability probe: success or failure only, no
    /// timing reported in either case.
    pub fn from_reachability(address: String, name: String, is_online: bool) -> (r: Self)
        ensures
            r.address@ == address@,
            r.name@ == name@,
            r.is_online == is_online,
            r.latency_us is None,
            r.well_formed(),
    {
        DnsCheckResult { address, name, is_online, latency_us: None }
    }

    /// The result of a latency probe: a successful attempt reports its
    /// elapsed time, a failed one reports offline with no timing.
    pub fn from_latency_probe(address: String, name: String, elapsed_us: Option<u64>) -> (r: Self)
        ensures
            r.address@ == address@,
            r.name@ == name@,
            r.is_online == (elapsed_us is Some),
            r.latency_us == elapsed_us,
            r.well_formed(),
    {
        match elapsed_us {
            Some(us) => DnsCheckResult {
                address,
                name,
                is_online: true,
                latency_us: Some(us),
            },
            None => DnsCheckResult { address, name, is_online: false, latency_us: None },
        }
    }
}

/// Every result in the batch is well formed.
pub open spec fn batch_well_formed(batch: Seq<DnsCheckResult>) -> bool {
    forall|i: int| 0 <= i < batch.len() ==> (#[trigger] batch[i]).well_formed()
}

/// The batch lines up with the candidate list: one result per candidate,
/// carrying that candidate's address and name at the same position.
pub open spec fn batch_matches_candidates(
    candidates: Seq<DnsServer>,
    batch: Seq<DnsCheckResult>,
) -> bool {
    &&& batch.len() == candidates.len()
    &&& forall|i: int|
        0 <= i < candidates.len() ==> (#[trigger] batch[i]).address@ == candidates[i].address@
            && batch[i].name@ == candidates[i].name@
}

/// Issues reachability probes: holds the fixed test query target and the
/// per-probe timeout that every attempt is bounded by.
pub struct DnsChecker {
    pub test_domain: String,
    pub timeout_seconds: u64,
}

impl DnsChecker {
    /// A checker with the default test target and a five-second timeout.
    pub fn new() -> (r: Self)
        ensures
            r.test_domain@ == "google.com"@,
            r.timeout_seconds == 5,
    {
        DnsChecker { test_domain: "google.com".to_owned(), timeout_seconds: 5 }
    }

    /// The same checker with its per-probe timeout replaced.
    pub fn with_timeout(self, timeout_seconds: u64) -> (r: Self)
        ensures
            r.test_domain@ == self.test_domain@,
            r.timeout_seconds == timeout_seconds,
    {
        DnsChecker { test_domain: self.test_domain, timeout_seconds }
    }

    /// Build the result batch of a reachability cycle from the per-candidate
    /// outcomes, in candidate order: result `i` reports candidate `i`, with
    /// no timing in either outcome.
    pub fn assemble_check_batch(
        &self,
        candidates: &Vec<DnsServer>,
        reachable: &Vec<bool>,
    ) -> (batch: Vec<DnsCheckResult>)
        requires
            candidates@.len() == reachable@.len(),
        ensures
            batch_matches_candidates(candidates@, batch@),
            batch_well_formed(batch@),
            forall|i: int|
                0 <= i < batch@.len() ==> (#[trigger] batch@[i]).is_online == reachable@[i]
                    && batch@[i].latency_us is None,
    {
        let mut batch: Vec<DnsCheckResult> = Vec::new();
        let n = candidates.len();
        let mut i: usize = 0;
        while i < n
            invariant
                i <= n,
                n == candidates@.len(),
                n == reachable@.len(),
                batch@.len() == i,
                forall|k: int|
                    0 <= k < i ==> (#[trigger] batch@[k]).address@ == candidates@[k].address@
                        && batch@[k].name@ == candidates@[k].name@
                        && batch@[k].is_online == reachable@[k]
                        && batch@[k].latency_us is None,
            decreases n - i,
        {
            let r = DnsCheckResult::from_reachability(
                candidates[i].address.clone(),
                candidates[i].name.clone(),
                reachable[i],
            );
            batch.push(r);
            i += 1;
        }
        batch
    }

    /// Build the result batch of a latency cycle from the per-candidate
    /// outcomes, in candidate order: a measured elapsed time marks the
    /// candidate online with that latency, a missing one marks it offline.
    pub fn assemble_benchmark_batch(
        &self,
        candidates: &Vec<DnsServer>,
        elapsed_us: &Vec<Option<u64>>,
    ) -> (batch: Vec<DnsCheckResult>)
        requires
            candidates@.len() == elapsed_us@.len(),
        ensures
            batch_matches_candidates(candidates@, batch@),
            batch_well_formed(batch@),
            forall|i: int|
                0 <= i < batch@.len() ==> (#[trigger] batch@[i]).is_online == (elapsed_us@[i]
                    is Some) && batch@[i].latency_us == elapsed_us@[i],
    {
        let mut batch: Vec<DnsCheckResult> = Vec::new();
        let n = candidates.len();
        let mut i: usize = 0;
        while i < n
            invariant
                i <= n,
                n == candidates@.len(),
                n == elapsed_us@.len(),
                batch@.len() == i,
                forall|k: int|
                    0 <= k < i ==> (#[trigger] batch@[k]).address@ == candidates@[k].address@
                        && batch@[k].name@ == candidates@[k].name@
                        && batch@[k].is_online == (elapsed_us@[k] is Some)
                        && batch@[k].latency_us == elapsed_us@[k],
            decreases n - i,
        {
            let r = DnsCheckResult::from_latency_probe(
                candidates[i].address.clone(),
                candidates[i].name.clone(),
                elapsed_us[i],
            );
            batch.push(r);
            i += 1;
        }
        batch
    }
}

impl Default for DnsChecker {
    /// The same checker [`DnsChecker::new`] builds.
    fn default() -> (r: Self)
        ensures
            r.test_domain@ == "google.com"@,
            r.timeout_seconds == 5,
    {
        DnsChecker::new()
    }
}

} // verus!

//! Configuration model: the candidate server list, the run mode, the probe
//! timeout and the cycle period, with the validation rules applied to a
//! loaded configuration before the daemon starts.

use vstd::prelude::*;

verus! {

/// How the daemon ranks probe results each cycle.
#[derive(Clone, Copy, Debug, PartialEq, Eq, Structural)]
pub enum OperationMode {
    /// Keep the first reachable servers, in input order.
    FirstOnline,
    /// Measure latency and keep the fastest servers.
    Benchmark,
}

/// One configured candidate name server: a display name and its address.
///
/// The address is held as its textual form; the library treats it as an
/// opaque identifier and never parses it.
#[derive(Clone, Debug)]
pub struct DnsServer {
    pub name: String,
    pub address: String,
}

/// The validated inputs the engine runs on: candidates, mode, probe timeout,
/// cycle period, and where the resolver configuration is written.
#[derive(Clone, Debug)]
pub struct Config {
    pub dns_servers: Vec<DnsServer>,
    pub mode: OperationMode,
    pub execution_interval_seconds: u64,
    pub timeout_seconds: u64,
    pub resolv_conf_path: Option<String>,
}

/// The probe timeout used when the configuration does not set one.
pub fn default_timeout_seconds() -> (r: u64)
    ensures
        r == 2,
{
    2
}

/// A condition that makes a configuration unusable; the daemon must not
/// start its loop on a configuration that yields one of these.
#[derive(Clone, Copy, Debug, PartialEq, Eq, Structural)]
pub enum ConfigError {
    /// No candidate server is configured at all.
    NoServers,
    /// Fewer than two candidate servers are configured.
    TooFewServers,
    /// The cycle period is zero.
    ZeroInterval,
    /// The probe timeout is zero.
    ZeroTimeout,
    /// Two candidate servers share one address.
    DuplicateAddress,
    /// A resolver-configuration path is set but empty.
    EmptyResolvConfPath,
}

/// A condition worth reporting that does not stop the daemon.
#[derive(Clone, Copy, Debug, PartialEq, Eq, Structural)]
pub enum ConfigWarning {
    /// The cycle period is shorter than thirty seconds.
    ShortInterval,
    /// The probe timeout is longer than ten seconds.
    LongTimeout,
    /// Two candidate servers share one display name.
    DuplicateNames,
    /// First-online mode with a cycle period over five minutes.
    LongIntervalFirstOnline,
    /// Benchmark mode with a cycle period under five minutes.
    ShortIntervalBenchmark,
}

/// Two configured servers share one address.
pub open spec fn has_duplicate_address(servers: Seq<DnsServer>) -> bool {
    exists|i: int, j: int|
        0 <= i < j < servers.len() && servers[i].address@ == servers[j].address@
}

/// Two configured servers share one display name.
pub open spec fn has_duplicate_name(servers: Seq<DnsServer>) -> bool {
    exists|i: int, j: int|
        0 <= i < j < servers.len() && servers[i].name@ == servers[j].name@
}

/// The error a configuration is rejected with, if any: the checks run in a
/// fixed order and the first failing one decides.
pub open spec fn spec_validate(c: Config) -> Result<(), ConfigError> {
    if c.dns_servers@.len() == 0 {
        Err(ConfigError::NoServers)
    } else if c.dns_servers@.len() < 2 {
        Err(ConfigError::TooFewServers)
    } else if c.execution_interval_seconds == 0 {
        Err(ConfigError::ZeroInterval)
    } else if c.timeout_seconds == 0 {
        Err(ConfigError::ZeroTimeout)
    } else if has_duplicate_address(c.dns_servers@) {
        Err(ConfigError::DuplicateAddress)
    } else if c.resolv_conf_path is Some && c.resolv_conf_path->0@.len() == 0 {
        Err(ConfigError::EmptyResolvConfPath)
    } else {
        Ok(())
    }
}

/// The warnings validation reports, in the order the checks run; a check
/// that fails with an error cuts the list off at that point.
pub open spec fn spec_warnings(c: Config) -> Seq<ConfigWarning> {
    if c.dns_servers@.len() < 2 {
        Seq::empty()
    } else if c.execution_interval_seconds == 0 {
        Seq::empty()
    } else {
        let after_interval: Seq<ConfigWarning> = if c.execution_interval_seconds < 30 {
            seq![ConfigWarning::ShortInterval]
        } else {
            Seq::empty()
        };
        if c.timeout_seconds == 0 {
            after_interval
        } else {
            let after_timeout: Seq<ConfigWarning> = if c.timeout_seconds > 10 {
                after_interval.push(ConfigWarning::LongTimeout)
            } else {
                after_interval
            };
            if has_duplicate_address(c.dns_servers@) {
                after_timeout
            } else {
                let after_names: Seq<ConfigWarning> = if has_duplicate_name(c.dns_servers@) {
                    after_timeout.push(ConfigWarning::DuplicateNames)
                } else {
                    after_timeout
                };
                if c.resolv_conf_path is Some && c.resolv_conf_path->0@.len() == 0 {
                    after_names
                } else {
                    match c.mode {
                        OperationMode::FirstOnline => if c.execution_interval_seconds > 300 {
                            after_names.push(ConfigWarning::LongIntervalFirstOnline)
                        } else {
                            after_names
                        },
                        OperationMode::Benchmark => if c.execution_interval_seconds < 300 {
                            after_names.push(ConfigWarning::ShortIntervalBenchmark)
                        } else {
                            after_names
                        },
                    }
                }
            }
        }
    }
}

/// Whether any two of the given servers share one address.
fn detect_duplicate_address(servers: &Vec<DnsServer>) -> (r: bool)
    ensures
        r == has_duplicate_address(servers@),
{
    let n = servers.len();
    let mut j: usize = 0;
    while j < n
        invariant
            j <= n,
            n == servers@.len(),
            forall|a: int, b: int|
                0 <= a < b < j ==> servers@[a].address@ != servers@[b].address@,
        decreases n - j,
    {
        let mut i: usize = 0;
        while i < j
            invariant
                i <= j < n,
                n == servers@.len(),
                forall|a: int| 0 <= a < i ==> servers@[a].address@ != servers@[j as int].address@,
            decreases j - i,
        {
            if servers[i].address == servers[j].address {
                assert(has_duplicate_address(servers@));
                return true;
            }
            i += 1;
        }
        j += 1;
    }
    false
}

/// Whether any two of the given servers share one display name.
fn detect_duplicate_name(servers: &Vec<DnsServer>) -> (r: bool)
    ensures
        r == has_duplicate_name(servers@),
{
    let n = servers.len();
    let mut j: usize = 0;
    while j < n
        invariant
            j <= n,
            n == servers@.len(),
            forall|a: int, b: int| 0 <= a < b < j ==> servers@[a].name@ != servers@[b].name@,
        decreases n - j,
    {
        let mut i: usize = 0;
        while i < j
            invariant
                i <= j < n,
                n == servers@.len(),
                forall|a: int| 0 <= a < i ==> servers@[a].name@ != servers@[j as int].name@,
            decreases j - i,
        {
            if servers[i].name == servers[j].name {
                assert(has_duplicate_name(servers@));
                return true;
            }
            i += 1;
        }
        j += 1;
    }
    false
}

impl Config {
    /// Run every validation check this library owns, in the order they are
    /// defined, and report the first error together with the warnings the
    /// checks before it produced. Whether the directory a configured
    /// resolver path points into exists is a filesystem question and is not
    /// decided here.
    pub fn validate(&self) -> (r: (Result<(), ConfigError>, Vec<ConfigWarning>))
        ensures
            r.0 == spec_validate(*self),
            r.1@ == spec_warnings(*self),
    {
        let mut warnings: Vec<ConfigWarning> = Vec::new();

        if self.dns_servers.len() == 0 {
            return (Err(ConfigError::NoServers), warnings);
        }
        if self.dns_servers.len() < 2 {
            return (Err(ConfigError::TooFewServers), warnings);
        }
        if self.execution_interval_seconds == 0 {
            return (Err(ConfigError::ZeroInterval), warnings);
        }
        if self.execution_interval_seconds < 30 {
            warnings.push(ConfigWarning::ShortInterval);
        }
        if self.timeout_seconds == 0 {
            return (Err(ConfigError::ZeroTimeout), warnings);
        }
        if self.timeout_seconds > 10 {
            warnings.push(ConfigWarning::LongTimeout);
        }
        if detect_duplicate_address(&self.dns_servers) {
            return (Err(ConfigError::DuplicateAddress), warnings);
        }
        if detect_duplicate_name(&self.dns_servers) {
            warnings.push(ConfigWarning::DuplicateNames);
        }
        if let Some(path) = &self.resolv_conf_path {
            if path.as_str().is_empty() {
                return (Err(ConfigError::EmptyResolvConfPath), warnings);
            }
        }
        match self.mode {
            OperationMode::FirstOnline => {
                if self.execution_interval_seconds > 300 {
                    warnings.push(ConfigWarning::LongIntervalFirstOnline);
                }
            },
            OperationMode::Benchmark => {
                if self.execution_interval_seconds < 300 {
                    warnings.push(ConfigWarning::ShortIntervalBenchmark);
                }
            },
        }
        (Ok(()), warnings)
    }

    /// The path the resolver configuration is written to: the configured one
    /// where set, the system default otherwise.
    pub fn resolv_conf_path(&self) -> (r: &str)
        ensures
            self.resolv_conf_path is Some ==> r@ == self.resolv_conf_path->0@,
            self.resolv_conf_path is None ==> r@ == "/etc/resolv.conf"@,
    {
        match &self.resolv_conf_path {
            Some(path) => path.as_str(),
            None => "/etc/resolv.conf",
        }
    }
}

} // verus!

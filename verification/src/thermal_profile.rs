//! The thermal profile that the platform announces in its `sconfig` node.

use vstd::prelude::*;

use crate::ai::workload::WorkloadMode;
use crate::text::{chars_of, parse_unsigned, trimmed};
#[allow(unused_imports)]
use crate::text::{decimal, lemma_decimal, trim, unsigned_of};

verus! {

pub const THERMAL_SCONFIG_NODE: &'static str = "/sys/class/thermal/thermal_message/sconfig";

/// Keeps the announced profile, and reads the node at most once per interval.
/// Times are milliseconds of a clock that does not go back.
#[derive(Debug, Clone, Copy, PartialEq, Eq, Structural)]
pub struct ThermalProfileManager {
    pub current_profile_id: u32,
    pub last_check_ms: u64,
    pub check_interval_ms: u64,
}

/// The workload that a profile stands for. Profile 0 and unknown profiles
/// leave it to the sensors.
pub open spec fn profile_workload(id: u32) -> Option<WorkloadMode> {
    if id == 6 || id == 10 || id == 40 {
        Some(WorkloadMode::Benchmark)
    } else if id == 18 || id == 39 {
        Some(WorkloadMode::PerfGaming)
    } else if id == 19 || id == 20 {
        Some(WorkloadMode::Gaming)
    } else if id == 12 || id == 15 || id == 42 {
        Some(WorkloadMode::Moderate)
    } else if id == 11 || id == 21 || id == 51 || id == 61 {
        Some(WorkloadMode::Moderate)
    } else if id == 7 || id == 41 {
        Some(WorkloadMode::Light)
    } else {
        None
    }
}

/// The profile number in the content of the node.
pub open spec fn profile_in(content: Option<&str>) -> Option<u32> {
    match content {
        Some(c) => match unsigned_of(trim(c@), u32::MAX as int) {
            Some(n) => Some(n as u32),
            None => None,
        },
        None => None,
    }
}

impl ThermalProfileManager {
    /// Is the node to be read again?
    pub open spec fn due(self, now_ms: u64) -> bool {
        now_ms - self.last_check_ms >= self.check_interval_ms
    }

    /// The manager after a read, and the profile that the read gives.
    pub open spec fn read(self, now_ms: u64, content: Option<&str>) -> (Self, Option<u32>) {
        if !self.due(now_ms) {
            (
                self,
                if self.current_profile_id > 0 {
                    Some(self.current_profile_id)
                } else {
                    None
                },
            )
        } else {
            match profile_in(content) {
                Some(id) => (
                    ThermalProfileManager {
                        current_profile_id: id,
                        last_check_ms: now_ms,
                        ..self
                    },
                    Some(id),
                ),
                None => (ThermalProfileManager { last_check_ms: now_ms, ..self }, None),
            }
        }
    }

    pub fn new(now_ms: u64) -> (r: Self)
        ensures
            r == (ThermalProfileManager {
                current_profile_id: 0,
                last_check_ms: now_ms,
                check_interval_ms: 1000,
            }),
    {
        ThermalProfileManager {
            current_profile_id: 0,
            last_check_ms: now_ms,
            check_interval_ms: 1000,
        }
    }

    pub fn is_due(&self, now_ms: u64) -> (r: bool)
        ensures
            r == self.due(now_ms),
    {
        now_ms >= self.last_check_ms && now_ms - self.last_check_ms >= self.check_interval_ms
    }

    /// The profile number, from the content of the node where it is due, else
    /// from the last read. A content that is no number gives nothing.
    pub fn read_sconfig(&mut self, now_ms: u64, content: Option<&str>) -> (r: Option<u32>)
        requires
            old(self).last_check_ms <= now_ms,
        ensures
            (*final(self), r) == old(self).read(now_ms, content),
    {
        if !self.is_due(now_ms) {
            return if self.current_profile_id > 0 {
                Some(self.current_profile_id)
            } else {
                None
            };
        }
        self.last_check_ms = now_ms;
        match content {
            Some(c) => {
                let t = trimmed(&chars_of(c));
                match parse_unsigned(&t, u32::MAX as u64) {
                    Some(n) => {
                        let id: u32 = n as u32;
                        self.current_profile_id = id;
                        Some(id)
                    },
                    None => None,
                }
            },
            None => None,
        }
    }

    pub fn current_profile(&self) -> (r: u32)
        ensures
            r == self.current_profile_id,
    {
        self.current_profile_id
    }

    pub fn profile_to_workload(&self, profile_id: u32) -> (r: Option<WorkloadMode>)
        ensures
            r == profile_workload(profile_id),
    {
        match profile_id {
            0 => None,
            6 | 10 | 40 => Some(WorkloadMode::Benchmark),
            18 | 39 => Some(WorkloadMode::PerfGaming),
            19 | 20 => Some(WorkloadMode::Gaming),
            12 | 15 | 42 => Some(WorkloadMode::Moderate),
            11 | 21 | 51 | 61 => Some(WorkloadMode::Moderate),
            7 | 41 => Some(WorkloadMode::Light),
            _ => None,
        }
    }

    /// The node is available exactly where it exists.
    pub fn is_sconfig_available(node_exists: bool) -> (r: bool)
        ensures
            r == node_exists,
    {
        node_exists
    }
}

// ---------------------------------------------------------------------------
// Laws
// ---------------------------------------------------------------------------

/// The workloads of the announced profiles: benchmarks, performance and ordinary games,
/// video, maps and calls, and light use. All others leave it to the sensors.
pub proof fn law_profiles_and_workloads(id: u32)
    ensures
        profile_workload(id) == Some(WorkloadMode::Benchmark) <==> id == 6 || id == 10 || id == 40,
        profile_workload(id) == Some(WorkloadMode::PerfGaming) <==> id == 18 || id == 39,
        profile_workload(id) == Some(WorkloadMode::Gaming) <==> id == 19 || id == 20,
        profile_workload(id) == Some(WorkloadMode::Moderate) <==> id == 11 || id == 12 || id == 15
            || id == 21 || id == 42 || id == 51 || id == 61,
        profile_workload(id) == Some(WorkloadMode::Light) <==> id == 7 || id == 41,
        profile_workload(id) != Some(WorkloadMode::Idle),
{
}

/// A profile that is read holds until the next read, which is an interval later at the
/// earliest. Profile 0 is announced once, and holds nothing afterwards.
pub proof fn law_profile_holds_for_an_interval(
    m: ThermalProfileManager,
    now_ms: u64,
    content: &str,
    id: u32,
    later_ms: u64,
    other: Option<&str>,
)
    requires
        trim(content@) == decimal(id as int),
        m.last_check_ms + m.check_interval_ms <= now_ms <= later_ms < now_ms + m.check_interval_ms,
    ensures
        ({
            let (after, first) = m.read(now_ms, Some(content));
            let (kept, second) = after.read(later_ms, other);
            &&& first == Some(id)
            &&& after.current_profile_id == id
            &&& after.last_check_ms == now_ms
            &&& after.check_interval_ms == m.check_interval_ms
            &&& kept == after
            &&& id > 0 ==> second == Some(id)
            &&& id == 0 ==> second is None
        }),
{
    lemma_decimal(id as int);
}

/// A node that cannot be read, or holds no number, gives no profile, and the last one is
/// kept for the time until the next read.
pub proof fn law_unreadable_profile(m: ThermalProfileManager, now_ms: u64)
    requires
        m.last_check_ms + m.check_interval_ms <= now_ms,
    ensures
        m.read(now_ms, None).1 is None,
        m.read(now_ms, None).0.current_profile_id == m.current_profile_id,
        m.read(now_ms, None).0.last_check_ms == now_ms,
{
}

} // verus!

//! The daemon's settings: one toggle per tuning dimension, with the values
//! applied while a process is optimized and the values restored when a prior
//! value could not be captured.

use vstd::prelude::*;

verus! {

/// Name of the cpufreq governor applied while optimized, by default.
pub const PERF_GOV: &'static str = "performance";

/// Nice value applied to an optimized process.
pub const OPTIMIZED_NICE_VALUE: i32 = -10;

/// Nice value restored when no prior value could be captured.
pub const DEFAULT_NICE_VALUE: i32 = 0;

/// Whether to pin an optimized process to a lightly loaded CPU.
pub struct CpuAffinity {
    pub enabled: bool,
}

/// Whether to switch every cpufreq policy to `optimized_type`.
pub struct CpuGovernor {
    pub enabled: bool,
    pub optimized_type: String,
}

/// Whether to change the nice value of an optimized process, and to what.
pub struct Niceness {
    pub enabled: bool,
    pub optimized_value: i32,
    pub default_value: i32,
}

/// Whether to change the I/O-priority level of an optimized process
/// (within the best-effort class), and to what.
pub struct IoNiceness {
    pub enabled: bool,
    pub optimized_value: i32,
    pub default_value: i32,
}

/// The complete configuration record. Immutable for the daemon's lifetime.
pub struct Settings {
    pub cpu_affinity: CpuAffinity,
    pub cpu_governor: CpuGovernor,
    pub niceness: Niceness,
    pub ioniceness: IoNiceness,
}

/// The mathematical content of a `Settings` value.
#[verifier::ext_equal]
pub struct SettingsModel {
    pub affinity_enabled: bool,
    pub governor_enabled: bool,
    pub governor: Seq<char>,
    pub nice_enabled: bool,
    pub nice_optimized: i32,
    pub nice_default: i32,
    pub io_enabled: bool,
    pub io_optimized: i32,
    pub io_default: i32,
}

impl View for Settings {
    type V = SettingsModel;

    open spec fn view(&self) -> SettingsModel {
        SettingsModel {
            affinity_enabled: self.cpu_affinity.enabled,
            governor_enabled: self.cpu_governor.enabled,
            governor: self.cpu_governor.optimized_type@,
            nice_enabled: self.niceness.enabled,
            nice_optimized: self.niceness.optimized_value,
            nice_default: self.niceness.default_value,
            io_enabled: self.ioniceness.enabled,
            io_optimized: self.ioniceness.optimized_value,
            io_default: self.ioniceness.default_value,
        }
    }
}

impl Default for Settings {
    /// Every dimension enabled; the performance governor; nice -10 restored
    /// to 0; best-effort I/O level 1 restored to 4.
    fn default() -> (r: Self)
        ensures
            r@.affinity_enabled,
            r@.governor_enabled,
            r@.governor == PERF_GOV@,
            r@.nice_enabled,
            r@.nice_optimized == OPTIMIZED_NICE_VALUE,
            r@.nice_default == DEFAULT_NICE_VALUE,
            r@.io_enabled,
            r@.io_optimized == crate::io::OPTIMIZED_IO_NICE_VALUE,
            r@.io_default == crate::io::DEFAULT_IO_NICE_VALUE,
    {
        Settings {
            cpu_affinity: CpuAffinity { enabled: true },
            cpu_governor: CpuGovernor { enabled: true, optimized_type: PERF_GOV.to_owned() },
            niceness: Niceness {
                enabled: true,
                optimized_value: OPTIMIZED_NICE_VALUE,
                default_value: DEFAULT_NICE_VALUE,
            },
            ioniceness: IoNiceness {
                enabled: true,
                optimized_value: crate::io::OPTIMIZED_IO_NICE_VALUE,
                default_value: crate::io::DEFAULT_IO_NICE_VALUE,
            },
        }
    }
}

} // verus!

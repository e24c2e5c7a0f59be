//! Which temperature sensors and thermal zones belong to the processor.

use vstd::prelude::*;
use crate::text::{contains, lowercase, lower_vec, vec_contains, vec_of};

verus! {

/// Reads the processor's and the graphics card's temperatures.
pub struct TemperatureCollector;

/// A sensor label names the processor: lowercased, it holds `cpu`,
/// `core`, `package`, `k10temp` or `tctl`.
pub open spec fn cpu_sensor_label(label: Seq<char>) -> bool {
    let l = lowercase(label);
    contains(l, "cpu"@) || contains(l, "core"@) || contains(l, "package"@) || contains(l, "k10temp"@)
        || contains(l, "tctl"@)
}

/// A thermal zone's type names the processor: lowercased, it holds
/// `x86_pkg_temp`, `cpu`, `k10temp` or `core`.
pub open spec fn cpu_zone_type(zone_type: Seq<char>) -> bool {
    let l = lowercase(zone_type);
    contains(l, "x86_pkg_temp"@) || contains(l, "cpu"@) || contains(l, "k10temp"@) || contains(l, "core"@)
}

impl TemperatureCollector {
    /// Whether a hardware sensor with this label measures the processor.
    pub fn is_cpu_sensor(label: &str) -> (r: bool)
        ensures
            r == cpu_sensor_label(label@),
    {
        let l = lower_vec(&vec_of(label));
        vec_contains(&l, &vec_of("cpu")) || vec_contains(&l, &vec_of("core")) || vec_contains(
            &l,
            &vec_of("package"),
        ) || vec_contains(&l, &vec_of("k10temp")) || vec_contains(&l, &vec_of("tctl"))
    }

    /// Whether a thermal zone of this type measures the processor.
    pub fn is_cpu_zone(zone_type: &str) -> (r: bool)
        ensures
            r == cpu_zone_type(zone_type@),
    {
        let l = lower_vec(&vec_of(zone_type));
        vec_contains(&l, &vec_of("x86_pkg_temp")) || vec_contains(&l, &vec_of("cpu")) || vec_contains(
            &l,
            &vec_of("k10temp"),
        ) || vec_contains(&l, &vec_of("core"))
    }
}

} // verus!

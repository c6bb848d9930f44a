//! One sampling cycle: from the raw register values two timed read
//! passes gathered — or from the point where a read failed — to the
//! cycle's metrics and the decision what the loop publishes.

use vstd::prelude::*;
use crate::metrics::{
    aggregate, core_watts_of, package_watt_of, sum_ints, watt_scaled, PowerMetrics, MAX_CPUS,
    WINDOWS_PER_SECOND,
};
use crate::registers::{decode_energy_exponent, energy_exponent};

verus! {

/// Length of the sampling window between the two read passes, in
/// microseconds: a tenth of a second, the reciprocal of the
/// windows-per-second factor the watt scaling uses.
pub const SAMPLING_WINDOW_MICROS: u64 = 100000;

/// Seconds the loop sleeps between cycles, however long the cycle took.
pub const CYCLE_PERIOD_SECS: u64 = 10;

/// Raw register values gathered by one complete sampling cycle: the
/// power-unit register read once on the designated core, and two passes
/// of core-energy and package-energy counter readings separated by the
/// sampling window, one entry per sampled core.
#[derive(Debug)]
pub struct CycleReadings {
    /// Raw value of the power-unit register.
    pub unit_raw: u64,
    /// First-pass core-energy counters, in core order.
    pub first_core: Vec<i64>,
    /// First-pass package-energy counters, in core order.
    pub first_package: Vec<i64>,
    /// Second-pass core-energy counters, in core order.
    pub second_core: Vec<i64>,
    /// Second-pass package-energy counters, in core order.
    pub second_package: Vec<i64>,
}

impl CycleReadings {
    /// All four passes cover the same cores, and no more than the scan
    /// cap.
    pub open spec fn wf(self) -> bool {
        &&& self.first_package@.len() == self.first_core@.len()
        &&& self.second_core@.len() == self.first_core@.len()
        &&& self.second_package@.len() == self.first_core@.len()
        &&& self.first_core@.len() <= MAX_CPUS
    }

    /// Number of sampled cores.
    pub open spec fn core_count(self) -> nat {
        self.first_core@.len()
    }
}

/// How far a sampling cycle got. Reads stop at the first failure, so a
/// failed cycle names the failing stage and carries no partial readings.
#[derive(Debug)]
pub enum CycleOutcome {
    /// Every open and read succeeded.
    Complete(CycleReadings),
    /// Opening the register device of the given core failed.
    OpenFailed(usize),
    /// Reading the power-unit register on the designated core failed.
    UnitReadFailed,
    /// A first-pass counter read on the given core failed.
    FirstReadFailed(usize),
    /// A second-pass counter read on the given core failed.
    SecondReadFailed(usize),
}

/// Why a cycle produced no metrics.
#[derive(Clone, Copy, Debug, PartialEq, Eq, Structural)]
pub enum SampleError {
    /// The sampled core set was empty; the cycle is a no-op.
    NoCores,
    /// Opening the register device of the given core failed.
    OpenFailed(usize),
    /// Reading the power-unit register on the designated core failed.
    UnitReadFailed,
    /// A first-pass counter read on the given core failed.
    FirstReadFailed(usize),
    /// A second-pass counter read on the given core failed.
    SecondReadFailed(usize),
}

/// The metrics a complete, non-empty cycle yields.
pub open spec fn metrics_of(r: CycleReadings, m: PowerMetrics) -> bool {
    &&& m.exponent == energy_exponent(r.unit_raw)
    &&& m.core_watts@.map_values(|w: i128| w as int) == core_watts_of(r.first_core@, r.second_core@)
    &&& m.core_sum == sum_ints(core_watts_of(r.first_core@, r.second_core@))
    &&& m.package_watts == package_watt_of(r.first_package@, r.second_package@)
}

/// Builds the cycle's metrics from complete readings: decodes the
/// energy-unit exponent, scales every core's delta, sums the per-core
/// values, and keeps the designated core's package delta. The other
/// cores' package deltas are computed like the rest but go nowhere.
pub fn compute_metrics(r: &CycleReadings) -> (m: PowerMetrics)
    requires
        r.wf(),
        r.core_count() > 0,
    ensures
        metrics_of(*r, m),
{
    let exponent = decode_energy_exponent(r.unit_raw);
    let n = r.first_core.len();

    let mut core_watts: Vec<i128> = Vec::new();
    let mut i: usize = 0;
    while i < n
        invariant
            n == r.core_count(),
            r.wf(),
            i <= n,
            core_watts@.len() == i,
            forall|j: int|
                0 <= j < i ==> #[trigger] core_watts@[j] as int == watt_scaled(
                    r.first_core@[j] as int,
                    r.second_core@[j] as int,
                ),
        decreases n - i,
    {
        let w: i128 = (WINDOWS_PER_SECOND as i128) * (r.second_core[i] as i128 - r.first_core[i] as i128);
        core_watts.push(w);
        i = i + 1;
    }
    proof {
        assert(core_watts@.map_values(|w: i128| w as int) =~= core_watts_of(
            r.first_core@,
            r.second_core@,
        ));
    }
    let core_sum = aggregate(&core_watts);

    // Every core's package delta is scaled like the core deltas, though
    // only the designated core's entry leaves this function.
    let mut package_watts_all: Vec<i128> = Vec::new();
    let mut k: usize = 0;
    while k < n
        invariant
            n == r.core_count(),
            r.wf(),
            k <= n,
            package_watts_all@.len() == k,
            forall|j: int|
                0 <= j < k ==> #[trigger] package_watts_all@[j] as int == watt_scaled(
                    r.first_package@[j] as int,
                    r.second_package@[j] as int,
                ),
        decreases n - k,
    {
        let w: i128 = (WINDOWS_PER_SECOND as i128) * (r.second_package[k] as i128 - r.first_package[k] as i128);
        package_watts_all.push(w);
        k = k + 1;
    }
    let package_watts = package_watts_all[0];

    PowerMetrics { core_watts, core_sum, package_watts, exponent }
}

/// Turns the outcome of one sampling cycle into the cycle's result. A
/// cycle yields metrics exactly when every open and read of every
/// sampled core succeeded and the core set was not empty; any single
/// failure aborts the whole cycle, and no partial metrics exist.
pub fn sample_result(outcome: CycleOutcome) -> (result: Result<PowerMetrics, SampleError>)
    requires
        outcome matches CycleOutcome::Complete(r) ==> r.wf(),
    ensures
        match outcome {
            CycleOutcome::Complete(r) => {
                if r.core_count() == 0 {
                    result == Err::<PowerMetrics, SampleError>(SampleError::NoCores)
                } else {
                    result matches Ok(m) && metrics_of(r, m)
                }
            },
            CycleOutcome::OpenFailed(c) => result == Err::<PowerMetrics, SampleError>(
                SampleError::OpenFailed(c),
            ),
            CycleOutcome::UnitReadFailed => result == Err::<PowerMetrics, SampleError>(
                SampleError::UnitReadFailed,
            ),
            CycleOutcome::FirstReadFailed(c) => result == Err::<PowerMetrics, SampleError>(
                SampleError::FirstReadFailed(c),
            ),
            CycleOutcome::SecondReadFailed(c) => result == Err::<PowerMetrics, SampleError>(
                SampleError::SecondReadFailed(c),
            ),
        },
{
    match outcome {
        CycleOutcome::Complete(r) => {
            if r.first_core.len() == 0 {
                Err(SampleError::NoCores)
            } else {
                Ok(compute_metrics(&r))
            }
        },
        CycleOutcome::OpenFailed(c) => Err(SampleError::OpenFailed(c)),
        CycleOutcome::UnitReadFailed => Err(SampleError::UnitReadFailed),
        CycleOutcome::FirstReadFailed(c) => Err(SampleError::FirstReadFailed(c)),
        CycleOutcome::SecondReadFailed(c) => Err(SampleError::SecondReadFailed(c)),
    }
}

/// What the sampling loop does with a cycle's result.
#[derive(Debug)]
pub enum CycleAction {
    /// Hand the metrics to the telemetry publisher.
    Publish(PowerMetrics),
    /// Publish nothing this cycle. The loop sleeps out the period and
    /// runs the next cycle unchanged either way.
    Skip,
}

/// Decides what one loop iteration publishes: a completed cycle's
/// metrics go to the publisher, a failed cycle publishes nothing — so a
/// cycle aborted by a read failure never reaches the sink, and the loop
/// simply runs again after the fixed period.
pub fn plan_cycle(result: Result<PowerMetrics, SampleError>) -> (action: CycleAction)
    ensures
        match result {
            Ok(m) => action matches CycleAction::Publish(p) && p == m,
            Err(_) => action matches CycleAction::Skip,
        },
{
    match result {
        Ok(m) => CycleAction::Publish(m),
        Err(_) => CycleAction::Skip,
    }
}

/// The number of cores a cycle samples: half the detected logical cores,
/// the stand-in the sampler uses for the physical-core count on a
/// two-threads-per-core part.
pub fn sampled_core_count(total_cores: usize) -> (n: usize)
    ensures
        n == total_cores / 2,
{
    total_cores / 2
}

} // verus!

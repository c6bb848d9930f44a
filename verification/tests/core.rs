use ryzenmon::metrics::{aggregate, PowerMetrics};
use ryzenmon::registers::{decode_energy_exponent, unit_denominator};
use ryzenmon::sampling::{
    plan_cycle, sample_result, sampled_core_count, CycleAction, CycleOutcome, CycleReadings,
    SampleError,
};

fn complete(
    unit_raw: u64,
    first_core: Vec<i64>,
    first_package: Vec<i64>,
    second_core: Vec<i64>,
    second_package: Vec<i64>,
) -> CycleOutcome {
    CycleOutcome::Complete(CycleReadings {
        unit_raw,
        first_core,
        first_package,
        second_core,
        second_package,
    })
}

fn sample_metrics(outcome: CycleOutcome) -> PowerMetrics {
    sample_result(outcome).expect("complete readings must yield metrics")
}

#[test]
fn unit_decoding_example() {
    // raw power-unit value 0x0A00 holds exponent 10: one count is 1/1024 J
    let e = decode_energy_exponent(0x0A00);
    assert_eq!(e, 10);
    assert_eq!(unit_denominator(e), 1024);
}

#[test]
fn unit_decoding_masks_other_bits() {
    assert_eq!(decode_energy_exponent(0xFFFF), 0x1F);
    assert_eq!(decode_energy_exponent(0x0000), 0);
    assert_eq!(decode_energy_exponent(0xE0FF), 0);
    assert_eq!(unit_denominator(0), 1);
    assert_eq!(unit_denominator(31), 1 << 31);
}

#[test]
fn watt_formula_example() {
    // E0 = 1000, E1 = 2000, unit = 1/1024: delta about 0.9766 J, about 9.766 W
    let m = sample_metrics(complete(0x0A00, vec![1000], vec![0], vec![2000], vec![0]));
    assert_eq!(m.exponent, 10);
    assert_eq!(m.core_watts, vec![10000i128]);
    assert_eq!(m.core_sum, 10000);
    let watts = m.core_sum as f64 / unit_denominator(m.exponent) as f64;
    assert!((watts - 9.766).abs() < 0.001);
}

#[test]
fn negative_delta_propagates() {
    // a counter that ran backwards is not corrected; the watts go negative
    let m = sample_metrics(complete(0x0A00, vec![2000], vec![500], vec![1000], vec![200]));
    assert_eq!(m.core_watts, vec![-10000i128]);
    assert_eq!(m.core_sum, -10000);
    assert_eq!(m.package_watts, -3000);
}

#[test]
fn aggregation_commutative_concrete() {
    let a = aggregate(&vec![10000i128, -300, 42]);
    let b = aggregate(&vec![42i128, 10000, -300]);
    let c = aggregate(&vec![-300i128, 42, 10000]);
    assert_eq!(a, 9742);
    assert_eq!(a, b);
    assert_eq!(b, c);
}

#[test]
fn aggregate_empty_is_zero() {
    assert_eq!(aggregate(&Vec::new()), 0);
}

#[test]
fn flat_counters_give_zero_watts() {
    // no energy accrued in the window: every figure is exactly zero
    let m = sample_metrics(complete(
        0x0A00,
        vec![7, 8, 9],
        vec![100, 200, 300],
        vec![7, 8, 9],
        vec![100, 200, 300],
    ));
    assert_eq!(m.core_watts, vec![0i128, 0, 0]);
    assert_eq!(m.core_sum, 0);
    assert_eq!(m.package_watts, 0);
}

#[test]
fn cycle_abort_on_second_read_failure() {
    // one failed second read aborts the cycle: no metrics, nothing published
    let r = sample_result(CycleOutcome::SecondReadFailed(1));
    assert_eq!(r.unwrap_err(), SampleError::SecondReadFailed(1));
    let action = plan_cycle(sample_result(CycleOutcome::SecondReadFailed(1)));
    assert!(matches!(action, CycleAction::Skip));
}

#[test]
fn every_failure_stage_maps_to_its_error() {
    assert_eq!(
        sample_result(CycleOutcome::OpenFailed(3)).unwrap_err(),
        SampleError::OpenFailed(3)
    );
    assert_eq!(
        sample_result(CycleOutcome::UnitReadFailed).unwrap_err(),
        SampleError::UnitReadFailed
    );
    assert_eq!(
        sample_result(CycleOutcome::FirstReadFailed(0)).unwrap_err(),
        SampleError::FirstReadFailed(0)
    );
}

#[test]
fn empty_core_set_is_a_no_op_cycle() {
    let r = sample_result(complete(0x0A00, vec![], vec![], vec![], vec![]));
    assert_eq!(r.unwrap_err(), SampleError::NoCores);
}

#[test]
fn completed_cycle_is_published() {
    let action = plan_cycle(sample_result(complete(
        0x0A00,
        vec![1000],
        vec![0],
        vec![2000],
        vec![0],
    )));
    match action {
        CycleAction::Publish(m) => assert_eq!(m.core_sum, 10000),
        CycleAction::Skip => panic!("a completed cycle must be published"),
    }
}

#[test]
fn package_watt_comes_from_designated_core_alone() {
    // other cores' package deltas are computed but never surface
    let a = sample_metrics(complete(
        0x0A00,
        vec![0, 0],
        vec![100, 9999],
        vec![0, 0],
        vec![150, 123],
    ));
    let b = sample_metrics(complete(
        0x0A00,
        vec![0, 0],
        vec![100, 4],
        vec![0, 0],
        vec![150, 777777],
    ));
    assert_eq!(a.package_watts, 500);
    assert_eq!(b.package_watts, 500);
}

#[test]
fn sampled_core_count_is_half() {
    assert_eq!(sampled_core_count(8), 4);
    assert_eq!(sampled_core_count(7), 3);
    assert_eq!(sampled_core_count(1), 0);
    assert_eq!(sampled_core_count(0), 0);
}

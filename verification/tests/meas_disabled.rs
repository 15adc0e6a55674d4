use timeslice::meas::disabled::RuntimeMeas;

#[test]
fn disabled_variant_measures_nothing() {
    let mut rt = RuntimeMeas::new(2);
    assert!(!rt.is_enabled());
    rt.enable(true);
    assert!(!rt.is_enabled());
    assert_eq!(rt.meas_begin(1000), -1);
    rt.meas_end("t", 0, 1000, 1200);
    assert!(rt.print_cpus(0).is_empty());
    assert!(rt.print_cpus(1_000_000).is_empty());
    assert!(rt.print_task("t", 10, 0).is_none());
}

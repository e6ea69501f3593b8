use raymath::bench::{
    bench_cross, bench_normalize, bench_project, bench_reflect, bench_scalar, report_line,
    u64_to_string, BenchTimes, BENCH_ITERATIONS,
};

#[test]
fn u64_renders_in_decimal() {
    assert_eq!(u64_to_string(0), "0");
    assert_eq!(u64_to_string(7), "7");
    assert_eq!(u64_to_string(10), "10");
    assert_eq!(u64_to_string(1000000), "1000000");
    assert_eq!(u64_to_string(26754825), "26754825");
    assert_eq!(u64_to_string(u64::MAX), "18446744073709551615");
}

#[test]
fn report_line_has_the_output_shape() {
    let times = BenchTimes { scalar_nanos: 1234, packed_nanos: 567 };
    let line = report_line("Cross product", &times);
    assert_eq!(line, "Cross product: SISD 1234ns, SIMD 567ns");
}

#[test]
fn cross_benchmark_completes_and_reports() {
    let first = bench_cross(BENCH_ITERATIONS);
    assert!(first.scalar_nanos > 0);
    assert!(first.packed_nanos > 0);
    let line = report_line("Cross product", &first);
    assert!(line.starts_with("Cross product: SISD "));
    assert!(line.contains("ns, SIMD "));
    assert!(line.ends_with("ns"));
    // the same seed runs again without error and reports again
    let second = bench_cross(BENCH_ITERATIONS);
    assert!(second.scalar_nanos > 0);
    assert!(second.packed_nanos > 0);
}

#[test]
fn remaining_benchmarks_complete() {
    let iters = 10000;
    let n = bench_normalize(iters);
    assert!(n.scalar_nanos > 0 && n.packed_nanos > 0);
    let r = bench_reflect(iters);
    assert!(r.scalar_nanos > 0 && r.packed_nanos > 0);
    let s = bench_scalar(iters);
    assert!(s.scalar_nanos > 0 && s.packed_nanos > 0);
    let p = bench_project(iters);
    assert!(p.scalar_nanos > 0 && p.packed_nanos > 0);
}

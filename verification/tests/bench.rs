use speedy_refs::MyBencher;
use std::cell::Cell;

#[test]
fn bench_render_frames_the_measurements() {
    assert_eq!(
        MyBencher::render("MY-RC", "1,234", "5", "67"),
        "Results for MY-RC\n[1,234ns, 5ns, 67ns]\n"
    );
    assert_eq!(MyBencher::render("", "", "", ""), "Results for \n[ns, ns, ns]\n");
}

#[test]
fn bench_report_groups_the_digits() {
    assert_eq!(
        MyBencher::report("STD-RC", 1_000_000, 999, 1_000),
        "Results for STD-RC\n[1,000,000ns, 999ns, 1,000ns]\n"
    );
    assert_eq!(
        MyBencher::report("x", 0, 12_345_678_901_234_567_890, u128::MAX),
        "Results for x\n[0ns, 12,345,678,901,234,567,890ns, \
         340,282,366,920,938,463,463,374,607,431,768,211,455ns]\n"
    );
}

#[test]
fn bench_calls_the_closure_size_times_per_measurement() {
    let calls = Cell::new(0u32);
    let bencher = MyBencher::new(100);
    let text = bencher.bench("count", || calls.set(calls.get() + 1));
    assert_eq!(calls.get(), 300);
    assert!(text.starts_with("Results for count\n["));
    assert!(text.ends_with("ns]\n"));
    assert_eq!(text.matches("ns").count(), 3);
}

#[test]
fn bench_of_size_zero_calls_nothing() {
    let calls = Cell::new(0u32);
    let bencher = MyBencher::new(0);
    let text = bencher.bench("none", || calls.set(calls.get() + 1));
    assert_eq!(calls.get(), 0);
    assert!(text.starts_with("Results for none\n["));
}

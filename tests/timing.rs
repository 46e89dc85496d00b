use dsa_judge::timer::utils::measure_time;
use dsa_judge::timer::Timer;

#[test]
fn timer_runs_between_start_and_reset() {
    let mut t = Timer::new();
    assert!(!t.is_running());
    assert!(t.elapsed().is_none());
    assert!(t.elapsed_millis().is_none());
    t.start();
    assert!(t.is_running());
    assert!(t.elapsed().is_some());
    assert!(t.elapsed_millis().unwrap() < 60_000);
    t.reset();
    assert!(!t.is_running());
    assert!(!Timer::default().is_running());
}

#[test]
fn measure_time_returns_the_result() {
    let (v, d) = measure_time(|| 6 * 7);
    assert_eq!(v, 42);
    assert!(d.as_secs() < 60);
}

use image_tiers::timing::time_it;

#[test]
fn time_it_runs_the_work_and_reports_a_duration() {
    let mut ran = false;
    let d = time_it(|| {
        ran = true;
    });
    assert!(ran);
    assert!(d <= std::time::Duration::from_secs(3600));
}

#[test]
fn time_it_measures_nested_work() {
    let outer = time_it(|| {
        let inner = time_it(|| {});
        assert!(inner <= std::time::Duration::from_secs(3600));
    });
    assert!(outer <= std::time::Duration::from_secs(3600));
}

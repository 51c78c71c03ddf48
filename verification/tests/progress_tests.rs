use img2pdf::progress::ProgressCounter;
use std::sync::Mutex;

#[test]
fn reports_every_item_for_small_jobs() {
    let reports = Mutex::new(Vec::new());
    let callback = |_: &str, done, _| reports.lock().unwrap().push(done);
    let mut counter = ProgressCounter::new("test", 3, &callback);
    counter.advance();
    counter.advance();
    counter.advance();
    assert_eq!(*reports.lock().unwrap(), vec![1, 2, 3]);
}

#[test]
fn throttles_large_jobs() {
    let reports = Mutex::new(Vec::new());
    let callback = |_: &str, done, _| reports.lock().unwrap().push(done);
    let mut counter = ProgressCounter::new("test", 1_000, &callback);
    for _ in 0..1_000 {
        counter.advance();
    }
    let reports = reports.lock().unwrap();
    assert_eq!(reports.first(), Some(&1));
    assert_eq!(reports.last(), Some(&1_000));
    assert!(reports.len() <= 21);
}

#[test]
fn twenty_one_items_report_first_last_and_every_second() {
    let reports = Mutex::new(Vec::new());
    let callback = |_: &str, done, _| reports.lock().unwrap().push(done);
    let mut counter = ProgressCounter::new("test", 21, &callback);
    for _ in 0..21 {
        counter.advance();
    }
    let reports = reports.lock().unwrap();
    assert_eq!(*reports, vec![1, 2, 4, 6, 8, 10, 12, 14, 16, 18, 20, 21]);
}

use cache_audit::classify::Verdict;
use cache_audit::schedule::{Scheduler, POOL_LIMIT};

fn targets(n: usize) -> Vec<String> {
    (0..n).map(|i| format!("t{}.pdf", i)).collect()
}

#[test]
fn never_more_than_the_ceiling_in_flight() {
    let mut s = Scheduler::new(targets(100), POOL_LIMIT);
    let mut launched = Vec::new();
    // Fill the pool: exactly 20 starts succeed, then the pool is full.
    while let Some(t) = s.try_start() {
        launched.push(t);
        assert!(s.in_flight <= POOL_LIMIT);
    }
    assert_eq!(s.in_flight, POOL_LIMIT);
    assert_eq!(launched.len(), POOL_LIMIT);

    // Completion order is arbitrary; as each probe finishes the next starts.
    let mut done = 0;
    while !s.is_done() {
        let t = launched.pop().expect("a probe must be in flight");
        s.finish(t, Verdict::Miss);
        done += 1;
        while let Some(t) = s.try_start() {
            launched.push(t);
            assert!(s.in_flight <= POOL_LIMIT);
        }
    }
    assert_eq!(done, 100);
    assert_eq!(s.results.len(), 100);
}

#[test]
fn results_keep_per_target_identity() {
    let mut s = Scheduler::new(targets(3), POOL_LIMIT);
    while let Some(t) = s.try_start() {
        s.finish(t, Verdict::Hit { age: Some(1) });
    }
    assert!(s.is_done());
    let names: Vec<&str> = s.results.iter().map(|(n, _)| n.as_str()).collect();
    assert_eq!(names, vec!["t0.pdf", "t1.pdf", "t2.pdf"]);
}

#[test]
fn small_pool_hands_out_one_at_a_time() {
    let mut s = Scheduler::new(targets(2), 1);
    let first = s.try_start().expect("first target");
    assert_eq!(first, "t0.pdf");
    assert!(s.try_start().is_none());
    s.finish(first, Verdict::Miss);
    let second = s.try_start().expect("second target");
    assert_eq!(second, "t1.pdf");
}

#[test]
fn cancellation_stops_further_starts() {
    let mut s = Scheduler::new(targets(10), 2);
    let a = s.try_start().expect("one probe running");
    s.cancel();
    assert!(s.try_start().is_none());
    // The probe already in flight may still be collected.
    s.finish(a, Verdict::AnomalyHtmlWall { path: "t0.pdf.html".to_string() });
    assert_eq!(s.results.len(), 1);
    assert!(s.try_start().is_none());
}

#[test]
fn empty_target_list_is_immediately_done() {
    let mut s = Scheduler::new(Vec::new(), POOL_LIMIT);
    assert!(s.is_done());
    assert!(s.try_start().is_none());
    assert_eq!(s.results.len(), 0);
}

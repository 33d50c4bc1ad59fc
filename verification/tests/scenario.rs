use cache_audit::catalog::{expand_all, CatalogEntry, CheckMode};
use cache_audit::classify::{
    classify, classify_wall, Classification, ProbeOutcome, Verdict, WallOutcome,
};
use cache_audit::schedule::{Scheduler, POOL_LIMIT};
use cache_audit::stats::fold;

fn hit_response(age: &str) -> ProbeOutcome {
    ProbeOutcome::Response {
        content_type: Some("application/octet-stream".to_string()),
        cache_status: Some("HIT".to_string()),
        age: Some(age.to_string()),
    }
}

fn settle(outcome: &ProbeOutcome) -> Verdict {
    match classify(outcome) {
        Classification::Settled { verdict } => verdict,
        Classification::HtmlWall => panic!("no wall expected here"),
    }
}

#[test]
fn pdf_catalog_all_hits() {
    let catalog = vec![CatalogEntry { id: "a".to_string(), filetype: "pdf".to_string() }];
    let targets = expand_all(&catalog, CheckMode::All);
    assert_eq!(targets, vec!["a.pdf".to_string(), "a.jpg".to_string(), "a.webp".to_string()]);

    let mut sched = Scheduler::new(targets, POOL_LIMIT);
    let ages = ["10", "20", "30"];
    let mut i = 0;
    while let Some(t) = sched.try_start() {
        let verdict = settle(&hit_response(ages[i]));
        sched.finish(t, verdict);
        i += 1;
    }
    assert!(sched.is_done());

    let verdicts: Vec<Verdict> = sched.results.into_iter().map(|(_, v)| v).collect();
    let stats = fold(&verdicts);
    assert_eq!(stats.total, 3);
    assert_eq!(stats.hit, 3);
    assert_eq!(stats.miss, 0);
    assert_eq!(stats.unknown, 0);
    assert_eq!(stats.cache_ratio_pct(), Some(100));
    assert_eq!(stats.mean_hit_age(), Some(20));
}

#[test]
fn wall_with_credential_continues_as_anomaly() {
    let outcome = ProbeOutcome::Response {
        content_type: Some("text/html".to_string()),
        cache_status: None,
        age: None,
    };
    assert!(matches!(classify(&outcome), Classification::HtmlWall));

    let target = "a.pdf".to_string();
    let verdict = match classify_wall(&target, "<html>asset page</html>", "not signed in", true) {
        WallOutcome::Anomaly { path } => {
            assert_eq!(path, "a.pdf.html");
            Verdict::AnomalyHtmlWall { path }
        }
        WallOutcome::FatalAbort => panic!("a credential was supplied"),
    };

    let verdicts = vec![verdict, Verdict::Miss];
    let stats = fold(&verdicts);
    assert_eq!(stats.total, 2);
    assert_eq!(stats.anomaly, 1);
    assert_eq!(stats.hit, 0);
    assert_eq!(stats.miss, 1);
    assert_eq!(stats.unknown, 0);
}

#[test]
fn wall_without_credential_aborts_the_run() {
    let target = "a.pdf".to_string();
    let body = "<html>not signed in</html>";
    let decision = classify_wall(&target, body, "not signed in", false);
    assert!(matches!(decision, WallOutcome::FatalAbort));

    // The run's fail-fast path: cancellation keeps every queued target from
    // starting.
    let mut sched = Scheduler::new(
        vec!["a.pdf".to_string(), "a.jpg".to_string(), "a.webp".to_string()],
        POOL_LIMIT,
    );
    let first = sched.try_start().expect("first probe");
    assert_eq!(first, "a.pdf");
    sched.cancel();
    assert!(sched.try_start().is_none());
}

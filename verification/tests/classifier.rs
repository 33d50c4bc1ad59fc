use cache_audit::classify::{
    classify, classify_wall, Classification, ProbeOutcome, Verdict, WallOutcome,
};

fn response(
    content_type: Option<&str>,
    cache_status: Option<&str>,
    age: Option<&str>,
) -> ProbeOutcome {
    ProbeOutcome::Response {
        content_type: content_type.map(|s| s.to_string()),
        cache_status: cache_status.map(|s| s.to_string()),
        age: age.map(|s| s.to_string()),
    }
}

#[test]
fn transport_failure_is_error() {
    let o = ProbeOutcome::Transport { detail: "connect timed out".to_string() };
    match classify(&o) {
        Classification::Settled { verdict: Verdict::Error { detail } } => {
            assert_eq!(detail, "connect timed out");
        }
        _ => panic!("expected an error verdict"),
    }
}

#[test]
fn missing_content_type_is_unknown() {
    let o = response(None, Some("HIT"), None);
    match classify(&o) {
        Classification::Settled { verdict: Verdict::Unknown { detail } } => {
            assert_eq!(detail, "no content-type");
        }
        _ => panic!("expected an unknown verdict"),
    }
}

#[test]
fn html_content_type_needs_the_body() {
    let o = response(Some("text/html; charset=utf-8"), Some("HIT"), None);
    assert!(matches!(classify(&o), Classification::HtmlWall));
}

#[test]
fn hit_with_valid_age() {
    let o = response(Some("application/pdf"), Some("HIT"), Some("42"));
    match classify(&o) {
        Classification::Settled { verdict: Verdict::Hit { age } } => {
            assert_eq!(age, Some(42));
        }
        _ => panic!("expected a hit verdict"),
    }
}

#[test]
fn hit_with_missing_or_bad_age_carries_none() {
    for age in [None, Some("4x2"), Some(""), Some("99999999999999999999999")] {
        let o = response(Some("image/webp"), Some("HIT"), age);
        match classify(&o) {
            Classification::Settled { verdict: Verdict::Hit { age } } => {
                assert_eq!(age, None);
            }
            _ => panic!("expected a hit verdict"),
        }
    }
}

#[test]
fn miss_status_is_miss() {
    let o = response(Some("application/pdf"), Some("MISS"), None);
    assert!(matches!(
        classify(&o),
        Classification::Settled { verdict: Verdict::Miss }
    ));
}

#[test]
fn other_status_is_unknown_with_the_value() {
    let o = response(Some("application/pdf"), Some("EXPIRED"), None);
    match classify(&o) {
        Classification::Settled { verdict: Verdict::Unknown { detail } } => {
            assert_eq!(detail, "EXPIRED");
        }
        _ => panic!("expected an unknown verdict"),
    }
}

#[test]
fn absent_status_is_unknown_none() {
    let o = response(Some("application/pdf"), None, None);
    match classify(&o) {
        Classification::Settled { verdict: Verdict::Unknown { detail } } => {
            assert_eq!(detail, "none");
        }
        _ => panic!("expected an unknown verdict"),
    }
}

#[test]
fn classifier_is_deterministic() {
    let a = response(Some("application/pdf"), Some("HIT"), Some("7"));
    let b = response(Some("application/pdf"), Some("HIT"), Some("7"));
    let (va, vb) = (classify(&a), classify(&b));
    match (va, vb) {
        (
            Classification::Settled { verdict: Verdict::Hit { age: x } },
            Classification::Settled { verdict: Verdict::Hit { age: y } },
        ) => assert_eq!(x, y),
        _ => panic!("expected two equal hit verdicts"),
    }
}

#[test]
fn wall_without_credential_is_fatal() {
    let target = "a.pdf".to_string();
    let body = "<html>please sign in to continue</html>";
    let r = classify_wall(&target, body, "please sign in", false);
    assert!(matches!(r, WallOutcome::FatalAbort));
}

#[test]
fn wall_with_credential_is_an_anomaly() {
    let target = "a.pdf".to_string();
    let body = "<html>please sign in to continue</html>";
    match classify_wall(&target, body, "please sign in", true) {
        WallOutcome::Anomaly { path } => assert_eq!(path, "a.pdf.html"),
        _ => panic!("expected an anomaly"),
    }
}

#[test]
fn wall_page_without_marker_is_an_anomaly_even_without_credential() {
    let target = "b.jpg".to_string();
    let body = "<html>stale edge page</html>";
    match classify_wall(&target, body, "please sign in", false) {
        WallOutcome::Anomaly { path } => assert_eq!(path, "b.jpg.html"),
        _ => panic!("expected an anomaly"),
    }
}

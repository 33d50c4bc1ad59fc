//! The verdict classifier: a pure decision tree from one probe's raw outcome
//! to a cache verdict.
//!
//! An HTML content-type cannot be settled from headers alone; the classifier
//! then asks for the page body, and a second pure decision settles whether the
//! wall is fatal (no credential to retry with) or a recoverable anomaly.

use vstd::prelude::*;
use crate::text::{contains_seq, contains_str, digits_value, is_html_content_type, parse_u64,
    starts_with_html, valid_u64_digits};

verus! {

/// The raw result of one probe: a transport failure, or the response header
/// view (content-type, CDN cache-status, age).
#[derive(Debug)]
pub enum ProbeOutcome {
    Transport { detail: String },
    Response { content_type: Option<String>, cache_status: Option<String>, age: Option<String> },
}

/// Mathematical model of a probe outcome.
#[verifier::ext_equal]
pub enum OutcomeModel {
    Transport { detail: Seq<char> },
    Response {
        content_type: Option<Seq<char>>,
        cache_status: Option<Seq<char>>,
        age: Option<Seq<char>>,
    },
}

impl View for ProbeOutcome {
    type V = OutcomeModel;

    open spec fn view(&self) -> OutcomeModel {
        match self {
            ProbeOutcome::Transport { detail } => OutcomeModel::Transport { detail: detail@ },
            ProbeOutcome::Response { content_type, cache_status, age } => OutcomeModel::Response {
                content_type: content_type.deep_view(),
                cache_status: cache_status.deep_view(),
                age: age.deep_view(),
            },
        }
    }
}

/// The classified result of one probe.
///
/// A `Hit` carries the cache age when the age header held a valid number;
/// an absent or unparseable age leaves it `None`.
#[derive(Debug)]
pub enum Verdict {
    Hit { age: Option<u64> },
    Miss,
    Unknown { detail: String },
    AnomalyHtmlWall { path: String },
    Error { detail: String },
}

/// Mathematical model of a verdict.
#[verifier::ext_equal]
pub enum VerdictModel {
    Hit { age: Option<u64> },
    Miss,
    Unknown { detail: Seq<char> },
    AnomalyHtmlWall { path: Seq<char> },
    Error { detail: Seq<char> },
}

impl View for Verdict {
    type V = VerdictModel;

    open spec fn view(&self) -> VerdictModel {
        match self {
            Verdict::Hit { age } => VerdictModel::Hit { age: *age },
            Verdict::Miss => VerdictModel::Miss,
            Verdict::Unknown { detail } => VerdictModel::Unknown { detail: detail@ },
            Verdict::AnomalyHtmlWall { path } => VerdictModel::AnomalyHtmlWall { path: path@ },
            Verdict::Error { detail } => VerdictModel::Error { detail: detail@ },
        }
    }
}

/// What the header view alone decides: either a settled verdict, or the
/// request for a body fetch because the response was an HTML page.
#[derive(Debug)]
pub enum Classification {
    Settled { verdict: Verdict },
    HtmlWall,
}

/// Mathematical model of a classification.
#[verifier::ext_equal]
pub enum ClassificationModel {
    Settled { verdict: VerdictModel },
    HtmlWall,
}

impl View for Classification {
    type V = ClassificationModel;

    open spec fn view(&self) -> ClassificationModel {
        match self {
            Classification::Settled { verdict } => ClassificationModel::Settled {
                verdict: verdict@,
            },
            Classification::HtmlWall => ClassificationModel::HtmlWall,
        }
    }
}

/// The decision on an HTML wall page: abort the whole run, or record a
/// recoverable anomaly with the diagnostic file path.
#[derive(Debug)]
pub enum WallOutcome {
    FatalAbort,
    Anomaly { path: String },
}

/// Mathematical model of a wall decision.
#[verifier::ext_equal]
pub enum WallModel {
    FatalAbort,
    Anomaly { path: Seq<char> },
}

impl View for WallOutcome {
    type V = WallModel;

    open spec fn view(&self) -> WallModel {
        match self {
            WallOutcome::FatalAbort => WallModel::FatalAbort,
            WallOutcome::Anomaly { path } => WallModel::Anomaly { path: path@ },
        }
    }
}

/// Cache-status header value meaning a cache hit.
pub open spec fn hit_marker() -> Seq<char> {
    "HIT"@
}

/// Cache-status header value meaning a cache miss.
pub open spec fn miss_marker() -> Seq<char> {
    "MISS"@
}

/// Detail recorded when the content-type header is absent.
pub open spec fn no_content_type_detail() -> Seq<char> {
    "no content-type"@
}

/// Detail recorded when the cache-status header is absent.
pub open spec fn absent_status_detail() -> Seq<char> {
    "none"@
}

/// Suffix of the diagnostic file written for an HTML wall page.
pub open spec fn html_suffix() -> Seq<char> {
    ".html"@
}

/// The cache age a hit carries: the age header's value when it is a valid
/// decimal `u64`, otherwise nothing.
pub open spec fn spec_age(age: Option<Seq<char>>) -> Option<u64> {
    match age {
        None => None,
        Some(a) => if valid_u64_digits(a) {
            Some(digits_value(a) as u64)
        } else {
            None
        },
    }
}

/// The classifier's decision tree over the header view.
///
/// Transport failure: `Error`. No content-type: `Unknown`. HTML content-type:
/// needs the body. Otherwise the cache-status header decides: `HIT` with the
/// parsed age, `MISS`, any other value `Unknown(value)`, absent
/// `Unknown(none)`.
pub open spec fn spec_classify(o: OutcomeModel) -> ClassificationModel {
    match o {
        OutcomeModel::Transport { detail } => ClassificationModel::Settled {
            verdict: VerdictModel::Error { detail },
        },
        OutcomeModel::Response { content_type, cache_status, age } => match content_type {
            None => ClassificationModel::Settled {
                verdict: VerdictModel::Unknown { detail: no_content_type_detail() },
            },
            Some(ct) => if is_html_content_type(ct) {
                ClassificationModel::HtmlWall
            } else {
                match cache_status {
                    None => ClassificationModel::Settled {
                        verdict: VerdictModel::Unknown { detail: absent_status_detail() },
                    },
                    Some(cs) => if cs == hit_marker() {
                        ClassificationModel::Settled {
                            verdict: VerdictModel::Hit { age: spec_age(age) },
                        }
                    } else if cs == miss_marker() {
                        ClassificationModel::Settled { verdict: VerdictModel::Miss }
                    } else {
                        ClassificationModel::Settled {
                            verdict: VerdictModel::Unknown { detail: cs },
                        }
                    },
                }
            },
        },
    }
}

/// The wall decision: fatal exactly when the body carries the
/// not-authenticated marker and no credential was supplied; otherwise a
/// recoverable anomaly whose diagnostic file is `<target>.html`.
pub open spec fn spec_classify_wall(
    target: Seq<char>,
    body: Seq<char>,
    marker: Seq<char>,
    has_credential: bool,
) -> WallModel {
    if contains_seq(body, marker) && !has_credential {
        WallModel::FatalAbort
    } else {
        WallModel::Anomaly { path: target + html_suffix() }
    }
}

/// The classifier is a pure function: the classification is determined by
/// the probe outcome's content alone, so two outcomes with the same content
/// always classify identically. Together with the contract of
/// [`classify`], which pins its result to `spec_classify`, this rules out
/// any dependence on state outside the outcome.
pub proof fn lemma_classifier_pure(a: &ProbeOutcome, b: &ProbeOutcome)
    requires
        a@ == b@,
    ensures
        spec_classify(a@) == spec_classify(b@),
{
}

/// Classify one probe outcome from its header view.
pub fn classify(outcome: &ProbeOutcome) -> (c: Classification)
    ensures
        c@ == spec_classify(outcome@),
{
    let c = match outcome {
        ProbeOutcome::Transport { detail } => Classification::Settled {
            verdict: Verdict::Error { detail: detail.clone() },
        },
        ProbeOutcome::Response { content_type, cache_status, age } => match content_type {
            None => Classification::Settled {
                verdict: Verdict::Unknown { detail: String::from_str("no content-type") },
            },
            Some(ct) => if starts_with_html(ct.as_str()) {
                Classification::HtmlWall
            } else {
                match cache_status {
                    None => Classification::Settled {
                        verdict: Verdict::Unknown { detail: String::from_str("none") },
                    },
                    Some(cs) => if *cs == String::from_str("HIT") {
                        let age_value = match age {
                            None => None,
                            Some(a) => parse_u64(a.as_str()),
                        };
                        Classification::Settled { verdict: Verdict::Hit { age: age_value } }
                    } else if *cs == String::from_str("MISS") {
                        Classification::Settled { verdict: Verdict::Miss }
                    } else {
                        Classification::Settled {
                            verdict: Verdict::Unknown { detail: cs.clone() },
                        }
                    },
                }
            },
        },
    };
    proof {
        assert(c@ =~= spec_classify(outcome@));
    }
    c
}

/// Decide what an HTML wall page means for the run.
pub fn classify_wall(target: &String, body: &str, marker: &str, has_credential: bool) -> (r:
    WallOutcome)
    ensures
        r@ == spec_classify_wall(target@, body@, marker@, has_credential),
{
    let walled = contains_str(body, marker);
    let r = if walled && !has_credential {
        WallOutcome::FatalAbort
    } else {
        WallOutcome::Anomaly { path: target.clone().concat(".html") }
    };
    proof {
        assert(r@ =~= spec_classify_wall(target@, body@, marker@, has_credential));
    }
    r
}

} // verus!

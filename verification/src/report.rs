//! The per-verdict status label shown in the final report, with a hit's age
//! rendered through the duration formatter. Colouring is presentation and
//! stays outside.

use vstd::prelude::*;
use crate::classify::{Verdict, VerdictModel};
use crate::duration::{format_duration, spec_format_duration};

verus! {

/// The report label of a verdict.
pub open spec fn spec_label(v: VerdictModel) -> Seq<char> {
    match v {
        VerdictModel::Hit { age: Some(a) } => "HIT (age: "@ + spec_format_duration(a) + ")"@,
        VerdictModel::Hit { age: None } => "HIT"@,
        VerdictModel::Miss => "MISS"@,
        VerdictModel::Unknown { detail } => "UNKNOWN: "@ + detail,
        VerdictModel::AnomalyHtmlWall { path } => "ANOMALY: "@ + path,
        VerdictModel::Error { detail } => "ERROR: "@ + detail,
    }
}

/// Render a verdict's report label.
pub fn verdict_label(v: &Verdict) -> (r: String)
    ensures
        r@ == spec_label(v@),
{
    let r = match v {
        Verdict::Hit { age: Some(a) } => {
            let mut s = String::from_str("HIT (age: ");
            let d = format_duration(*a);
            s.append(d.as_str());
            s.append(")");
            s
        },
        Verdict::Hit { age: None } => String::from_str("HIT"),
        Verdict::Miss => String::from_str("MISS"),
        Verdict::Unknown { detail } => String::from_str("UNKNOWN: ").concat(detail.as_str()),
        Verdict::AnomalyHtmlWall { path } => String::from_str("ANOMALY: ").concat(path.as_str()),
        Verdict::Error { detail } => String::from_str("ERROR: ").concat(detail.as_str()),
    };
    proof {
        assert(r@ =~= spec_label(v@));
    }
    r
}

} // verus!

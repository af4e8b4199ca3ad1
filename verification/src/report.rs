//! The error aggregator and reporter.
//!
//! Once the one pipeline of an invocation has returned, its outcome is
//! turned into (a) a one-line diagnostic for the error stream on failure,
//! (b) the structured error artifact when a destination for it was supplied
//! — success or failure, so that "no errors occurred" stays distinguishable
//! from "reporting was not requested" — and (c) the process exit status:
//! zero on success, the uniform non-zero status on any failure, however many
//! sub-errors it carries.

use vstd::prelude::*;
use vstd::string::StringExecFns;
use crate::json::{error_doc_bytes, error_doc_of_strings};
use crate::outcome::Outcome;

verus! {

/// The diagnostic line written for a failure with the given top-level
/// description.
pub open spec fn diag_line(summary: Seq<char>) -> Seq<char> {
    "Errors happened while processing the trace: "@ + summary
}

/// Everything the reporter decides for one invocation.
pub struct Report {
    /// The diagnostic line; present exactly on failure.
    pub diagnostic: Option<String>,
    /// The artifact document; present exactly when reporting was requested.
    pub artifact: Option<Vec<u8>>,
    /// The process exit status: 0 on success, 1 on any failure.
    pub exit_code: u8,
}

/// What the reporter promises, stated over the outcome's observable
/// content: its verdict, its top-level summary and its sub-errors.
pub open spec fn report_matches(
    r: Report,
    success: bool,
    summary: Seq<char>,
    errors: Seq<Seq<char>>,
    want_artifact: bool,
) -> bool {
    &&& r.exit_code == (if success {
        0int
    } else {
        1int
    })
    &&& (r.diagnostic is Some <==> !success)
    &&& (r.diagnostic is Some ==> r.diagnostic->0@ == diag_line(summary))
    &&& (r.artifact is Some <==> want_artifact)
    &&& (r.artifact is Some ==> r.artifact->0@ == error_doc_of_strings(errors))
}

/// Turn a pipeline outcome into the invocation's report.
pub fn finalize(outcome: &Outcome, want_artifact: bool) -> (r: Report)
    ensures
        report_matches(
            r,
            outcome.is_success(),
            outcome.spec_summary(),
            outcome.spec_errors(),
            want_artifact,
        ),
{
    let diagnostic = match outcome {
        Outcome::Success => Option::None,
        Outcome::Failure { summary, .. } => {
            let mut d = "Errors happened while processing the trace: ".to_owned();
            d.append(summary.as_str());
            Option::Some(d)
        },
    };
    let artifact = if want_artifact {
        let errs = outcome.errors();
        Option::Some(error_doc_bytes(&errs))
    } else {
        Option::None
    };
    let exit_code: u8 = match outcome {
        Outcome::Success => 0,
        Outcome::Failure { .. } => 1,
    };
    Report { diagnostic, artifact, exit_code }
}

/// Law: reporting is a pure function of the outcome's observable content.
/// Any two reports produced under the reporting contract from outcomes with
/// the same verdict, summary and sub-errors agree on the exit status, the
/// diagnostic line and the artifact bytes — so repeating a header-only
/// command over an unchanged trace repeats the identical report. (That the
/// header-reading collaborators are themselves deterministic is assumed at
/// their interface.)
pub proof fn lemma_reporting_deterministic(
    r1: Report,
    r2: Report,
    success: bool,
    summary: Seq<char>,
    errors: Seq<Seq<char>>,
    want_artifact: bool,
)
    requires
        report_matches(r1, success, summary, errors, want_artifact),
        report_matches(r2, success, summary, errors, want_artifact),
    ensures
        r1.exit_code == r2.exit_code,
        r1.diagnostic is Some <==> r2.diagnostic is Some,
        r1.diagnostic is Some ==> r1.diagnostic->0@ == r2.diagnostic->0@,
        r1.artifact is Some <==> r2.artifact is Some,
        r1.artifact is Some ==> r1.artifact->0@ == r2.artifact->0@,
{
}

/// Law: error reporting is complete. When the artifact is requested it is
/// written whatever the verdict, and it holds exactly the outcome's
/// sub-errors, in discovery order; and a failure exits with the uniform
/// non-zero status no matter how many sub-errors it carries.
pub proof fn lemma_error_report_complete(
    r: Report,
    success: bool,
    summary: Seq<char>,
    errors: Seq<Seq<char>>,
)
    requires
        report_matches(r, success, summary, errors, true),
    ensures
        r.artifact is Some,
        r.artifact->0@ == error_doc_of_strings(errors),
        success <==> r.exit_code == 0,
        !success ==> r.exit_code == 1,
{
}

} // verus!

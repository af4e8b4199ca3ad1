use tracedump::command::{default_chunk_size, Command, CompressionScheme, DispatchState, PipelineKind};
use tracedump::json::error_doc_bytes;
use tracedump::outcome::Outcome;
use tracedump::report::finalize;

fn parse_errors(bytes: &[u8]) -> Vec<String> {
    let text = std::str::from_utf8(bytes).expect("artifact is valid UTF-8");
    let v: serde_json::Value = serde_json::from_str(text).expect("artifact is valid JSON");
    v.get("errors")
        .expect("artifact has an errors field")
        .as_array()
        .expect("errors is an array")
        .iter()
        .map(|e| e.as_str().expect("each error is a string").to_string())
        .collect()
}

#[test]
fn success_exits_zero_with_empty_artifact() {
    let r = finalize(&Outcome::Success, true);
    assert_eq!(r.exit_code, 0);
    assert!(r.diagnostic.is_none());
    let artifact = r.artifact.expect("artifact was requested");
    assert_eq!(artifact, b"{\"errors\":[]}".to_vec());
    assert!(parse_errors(&artifact).is_empty());
}

#[test]
fn success_without_request_writes_no_artifact() {
    let r = finalize(&Outcome::Success, false);
    assert_eq!(r.exit_code, 0);
    assert!(r.artifact.is_none());
}

#[test]
fn failure_exits_nonzero_and_lists_every_suberror() {
    let outcome = Outcome::Failure {
        summary: "bad header".to_string(),
        details: vec!["field size mismatch".to_string(), "truncated page".to_string()],
    };
    let r = finalize(&outcome, true);
    assert_eq!(r.exit_code, 1);
    assert_eq!(
        r.diagnostic.as_deref(),
        Some("Errors happened while processing the trace: bad header")
    );
    let errors = parse_errors(&r.artifact.expect("artifact was requested"));
    assert_eq!(errors.len(), 2);
    assert_eq!(errors[0], "field size mismatch");
    assert_eq!(errors[1], "truncated page");
}

#[test]
fn failure_with_no_details_still_exits_nonzero() {
    let outcome = Outcome::Failure { summary: "io error".to_string(), details: Vec::new() };
    let r = finalize(&outcome, true);
    assert_eq!(r.exit_code, 1);
    let errors = parse_errors(&r.artifact.expect("artifact was requested"));
    assert!(errors.is_empty());
}

#[test]
fn artifact_escapes_special_characters() {
    let details = vec![
        "quote \" backslash \\ done".to_string(),
        "newline \n tab \t bell \u{7} end".to_string(),
        "unicode: déjà vu — ✓".to_string(),
    ];
    let outcome = Outcome::Failure { summary: "s".to_string(), details: details.clone() };
    let r = finalize(&outcome, true);
    let errors = parse_errors(&r.artifact.expect("artifact was requested"));
    assert_eq!(errors, details);
}

#[test]
fn error_doc_on_plain_strings() {
    let errs = vec!["a".to_string(), "b".to_string()];
    let doc = error_doc_bytes(&errs);
    assert_eq!(doc, b"{\"errors\":[\"a\",\"b\"]}".to_vec());
}

#[test]
fn reporting_twice_gives_identical_reports() {
    let outcome = Outcome::Failure {
        summary: "bad header".to_string(),
        details: vec!["mismatch".to_string()],
    };
    let r1 = finalize(&outcome, true);
    let r2 = finalize(&outcome, true);
    assert_eq!(r1.exit_code, r2.exit_code);
    assert_eq!(r1.diagnostic, r2.diagnostic);
    assert_eq!(r1.artifact, r2.artifact);
}

#[test]
fn dispatch_runs_exactly_one_pipeline() {
    let cmd = Command::Parquet {
        events: None,
        unique_timestamps: true,
        compression: CompressionScheme::Zstd,
        chunk_size: default_chunk_size(),
    };
    let mut state = DispatchState::new();
    assert!(matches!(state, DispatchState::Idle));
    state.start(&cmd);
    assert!(matches!(state, DispatchState::Dispatched(PipelineKind::Parquet)));
    state.complete();
    assert!(matches!(state, DispatchState::Completed));
}

#[test]
fn header_commands_do_not_traverse_events() {
    assert!(!Command::CheckHeader.traverses_events());
    assert!(!Command::Metadata.traverses_events());
    assert!(Command::HumanReadable { raw: false }.traverses_events());
}

#[test]
fn default_chunk_size_is_64ki() {
    assert_eq!(default_chunk_size(), 64 * 1024);
}

#[test]
fn errors_accessor_returns_suberrors() {
    assert!(Outcome::Success.errors().is_empty());
    let outcome = Outcome::Failure {
        summary: "s".to_string(),
        details: vec!["one".to_string(), "two".to_string()],
    };
    assert_eq!(outcome.errors(), vec!["one".to_string(), "two".to_string()]);
}

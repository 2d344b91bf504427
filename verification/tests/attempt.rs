use vitae::compiler::{compiler_available, compiler_flag_list, compiler_program, version_flag};
use vitae::result::{any_error, normalize_separators};
use vitae::workspace::{artifact_file_name, source_file_name, stale_file_names, with_suffix};
use vitae::{
    assemble_result, begin_export, finish_export, Action, Artifact, Attempt, CompilationResult,
    CompileError, Event, ExportAction, ExportError, LatexError, Severity, Stage,
};

fn record(line: Option<u32>, message: &str, severity: Severity) -> LatexError {
    LatexError { line, message: message.to_string(), severity }
}

fn names(list: &[&str]) -> Vec<String> {
    list.iter().map(|s| s.to_string()).collect()
}

fn run(output: &str, found: Artifact) -> Action {
    let mut attempt = Attempt::new("doc".to_string());
    attempt.step(Event::Begin);
    attempt.step(Event::WorkspaceReady);
    attempt.step(Event::SourceWritten);
    attempt.step(Event::CompilerExited(output.to_string()));
    let last = attempt.step(Event::Inspected(found));
    assert_eq!(attempt.stage(), Stage::Done);
    match last {
        Some(action) => action,
        None => panic!("the attempt refused the inspection"),
    }
}

#[test]
fn clean_output_with_artifact_succeeds() {
    let action = run(
        "This is pdfTeX\nOutput written on doc.pdf (1 page).\n",
        Artifact::Present("/data/temp/doc.pdf".to_string()),
    );
    assert_eq!(
        action,
        Action::Finish(CompilationResult {
            success: true,
            pdf_path: Some("/data/temp/doc.pdf".to_string()),
            errors: vec![],
        })
    );
}

#[test]
fn same_output_gives_same_diagnostics_and_success() {
    let out = "LaTeX Warning: x\n./doc.tex:4: LaTeX Error: y\n";
    let first = run(out, Artifact::Present("a/doc.pdf".to_string()));
    let second = run(out, Artifact::Present("a/doc.pdf".to_string()));
    assert_eq!(first, second);
    let third = run(out, Artifact::Absent);
    let fourth = run(out, Artifact::Absent);
    assert_eq!(third, fourth);
}

#[test]
fn missing_artifact_without_diagnostics_is_explained() {
    let action = run("nothing to see\n", Artifact::Absent);
    assert_eq!(
        action,
        Action::Finish(CompilationResult {
            success: false,
            pdf_path: None,
            errors: vec![record(None, "artifact was not generated", Severity::Error)],
        })
    );
}

#[test]
fn missing_artifact_keeps_the_diagnostics_it_has() {
    let action = run("LaTeX Warning: only this\n", Artifact::Absent);
    assert_eq!(
        action,
        Action::Finish(CompilationResult {
            success: false,
            pdf_path: None,
            errors: vec![record(None, "LaTeX Warning: only this", Severity::Warning)],
        })
    );
}

#[test]
fn stale_artifact_is_cleaned_and_not_reported() {
    let mut attempt = Attempt::new("doc".to_string());
    let first = attempt.step(Event::Begin);
    let cleaned = match first {
        Some(Action::Clean(list)) => list,
        _ => panic!("an attempt begins by cleaning"),
    };
    assert!(cleaned.contains(&artifact_file_name("doc")));
    attempt.step(Event::WorkspaceReady);
    attempt.step(Event::SourceWritten);
    attempt.step(Event::CompilerExited("! Emergency stop.\n".to_string()));
    let last = attempt.step(Event::Inspected(Artifact::Absent));
    assert_eq!(
        last,
        Some(Action::Finish(CompilationResult {
            success: false,
            pdf_path: None,
            errors: vec![record(None, "Emergency stop.", Severity::Error)],
        }))
    );
}

#[test]
fn warnings_alone_do_not_fail_the_build() {
    let action = run("LaTeX Warning: a\nx.tex:2: some warning\n", Artifact::Present("p".to_string()));
    assert_eq!(
        action,
        Action::Finish(CompilationResult {
            success: true,
            pdf_path: Some("p".to_string()),
            errors: vec![
                record(None, "LaTeX Warning: a", Severity::Warning),
                record(Some(2), "some warning", Severity::Warning),
            ],
        })
    );
}

#[test]
fn an_error_fails_the_build_though_the_artifact_exists() {
    let action = run("! Undefined control sequence.\n", Artifact::Present("p.pdf".to_string()));
    assert_eq!(
        action,
        Action::Finish(CompilationResult {
            success: false,
            pdf_path: Some("p.pdf".to_string()),
            errors: vec![record(None, "Undefined control sequence.", Severity::Error)],
        })
    );
}

#[test]
fn artifact_path_uses_slashes() {
    let action = run("", Artifact::Present("C:\\Users\\me\\temp\\doc.pdf".to_string()));
    assert_eq!(
        action,
        Action::Finish(CompilationResult {
            success: true,
            pdf_path: Some("C:/Users/me/temp/doc.pdf".to_string()),
            errors: vec![],
        })
    );
    assert_eq!(normalize_separators("a\\b/c\\\\d"), "a/b/c//d");
    assert_eq!(normalize_separators(""), "");
}

#[test]
fn unnameable_artifact_is_an_error() {
    let action = run("", Artifact::Unnameable);
    assert_eq!(action, Action::Fail(CompileError::InvalidPath));
}

#[test]
fn attempt_walks_through_its_stages() {
    let mut attempt = Attempt::new("d1".to_string());
    assert_eq!(attempt.stage(), Stage::Idle);
    assert_eq!(
        attempt.step(Event::Begin),
        Some(Action::Clean(names(&["d1.pdf", "d1.aux", "d1.log", "d1.out"])))
    );
    assert_eq!(attempt.stage(), Stage::Cleaning);
    assert_eq!(attempt.step(Event::WorkspaceReady), Some(Action::Write("d1.tex".to_string())));
    assert_eq!(attempt.stage(), Stage::Writing);
    assert_eq!(
        attempt.step(Event::SourceWritten),
        Some(Action::Invoke {
            flags: names(&["-interaction=nonstopmode", "-file-line-error", "-output-directory"]),
            source: "d1.tex".to_string(),
        })
    );
    assert_eq!(attempt.stage(), Stage::Invoking);
    assert_eq!(
        attempt.step(Event::CompilerExited(String::new())),
        Some(Action::Inspect("d1.pdf".to_string()))
    );
    assert_eq!(attempt.stage(), Stage::Parsing);
    assert_eq!(
        attempt.step(Event::Inspected(Artifact::Present("t/d1.pdf".to_string()))),
        Some(Action::Finish(CompilationResult {
            success: true,
            pdf_path: Some("t/d1.pdf".to_string()),
            errors: vec![],
        }))
    );
    assert_eq!(attempt.stage(), Stage::Done);
    assert_eq!(attempt.step(Event::Begin), None);
    assert_eq!(attempt.stage(), Stage::Done);
}

#[test]
fn workspace_failure_ends_the_attempt() {
    let mut attempt = Attempt::new("d".to_string());
    attempt.step(Event::Begin);
    let action = attempt.step(Event::WorkspaceFailed("Permission denied".to_string()));
    assert_eq!(action, Some(Action::Fail(CompileError::Workspace("Permission denied".to_string()))));
    assert_eq!(attempt.stage(), Stage::Done);
    assert_eq!(attempt.step(Event::WorkspaceReady), None);
    assert_eq!(attempt.step(Event::SourceWritten), None);
}

#[test]
fn write_failure_ends_the_attempt_before_the_compiler_runs() {
    let mut attempt = Attempt::new("d".to_string());
    attempt.step(Event::Begin);
    attempt.step(Event::WorkspaceReady);
    let action = attempt.step(Event::WriteFailed("disk full".to_string()));
    assert_eq!(action, Some(Action::Fail(CompileError::SourceWrite("disk full".to_string()))));
    assert_eq!(attempt.stage(), Stage::Done);
    assert_eq!(attempt.step(Event::CompilerExited(String::new())), None);
}

#[test]
fn compiler_that_does_not_start_ends_the_attempt_before_parsing() {
    let mut attempt = Attempt::new("d".to_string());
    attempt.step(Event::Begin);
    attempt.step(Event::WorkspaceReady);
    attempt.step(Event::SourceWritten);
    let action = attempt.step(Event::CompilerNotStarted("No such file or directory".to_string()));
    assert_eq!(
        action,
        Some(Action::Fail(CompileError::CompilerMissing("No such file or directory".to_string())))
    );
    assert_eq!(attempt.stage(), Stage::Done);
    assert_eq!(attempt.step(Event::Inspected(Artifact::Absent)), None);
}

#[test]
fn event_out_of_turn_is_refused_and_changes_nothing() {
    let mut attempt = Attempt::new("d".to_string());
    assert_eq!(attempt.step(Event::WorkspaceReady), None);
    assert_eq!(attempt.step(Event::CompilerExited("! x".to_string())), None);
    assert_eq!(attempt.step(Event::Inspected(Artifact::Absent)), None);
    assert_eq!(attempt.stage(), Stage::Idle);
    attempt.step(Event::Begin);
    assert_eq!(attempt.step(Event::Begin), None);
    assert_eq!(attempt.step(Event::SourceWritten), None);
    assert_eq!(attempt.stage(), Stage::Cleaning);
    assert_eq!(attempt.step(Event::WorkspaceReady), Some(Action::Write("d.tex".to_string())));
}

#[test]
fn compile_error_messages() {
    assert_eq!(
        CompileError::Workspace("denied".to_string()).message(),
        "Failed to create temp dir: denied"
    );
    assert_eq!(
        CompileError::SourceWrite("denied".to_string()).message(),
        "Failed to write tex file: denied"
    );
    assert_eq!(
        CompileError::CompilerMissing("not found".to_string()).message(),
        "Failed to run pdflatex: not found. Make sure pdflatex is installed and in PATH."
    );
    assert_eq!(CompileError::InvalidPath.message(), "Invalid PDF path");
}

#[test]
fn assemble_result_by_cases() {
    let warning = record(None, "w", Severity::Warning);
    let error = record(Some(1), "e", Severity::Error);
    assert_eq!(
        assemble_result(None, vec![]),
        CompilationResult {
            success: false,
            pdf_path: None,
            errors: vec![record(None, "artifact was not generated", Severity::Error)],
        }
    );
    assert_eq!(
        assemble_result(None, vec![warning.clone()]),
        CompilationResult { success: false, pdf_path: None, errors: vec![warning.clone()] }
    );
    assert_eq!(
        assemble_result(Some("x\\y.pdf".to_string()), vec![warning.clone(), error.clone()]),
        CompilationResult {
            success: false,
            pdf_path: Some("x/y.pdf".to_string()),
            errors: vec![warning.clone(), error.clone()],
        }
    );
    assert_eq!(
        assemble_result(Some("y.pdf".to_string()), vec![warning.clone()]),
        CompilationResult {
            success: true,
            pdf_path: Some("y.pdf".to_string()),
            errors: vec![warning.clone()],
        }
    );
    assert!(any_error(&vec![warning.clone(), error.clone()]));
    assert!(!any_error(&vec![warning]));
    assert!(!any_error(&vec![]));
}

#[test]
fn workspace_file_names() {
    assert_eq!(source_file_name("abc"), "abc.tex");
    assert_eq!(artifact_file_name("abc"), "abc.pdf");
    assert_eq!(stale_file_names("abc"), names(&["abc.pdf", "abc.aux", "abc.log", "abc.out"]));
    assert_eq!(with_suffix("", ".tex"), ".tex");
    assert_eq!(with_suffix("a.b", ""), "a.b");
}

#[test]
fn compiler_call() {
    assert_eq!(compiler_program(), "pdflatex");
    assert_eq!(
        compiler_flag_list(),
        names(&["-interaction=nonstopmode", "-file-line-error", "-output-directory"])
    );
    assert_eq!(version_flag(), "--version");
}

#[test]
fn compiler_is_available_only_where_the_probe_ran_well() {
    assert!(compiler_available(Some(true)));
    assert!(!compiler_available(Some(false)));
    assert!(!compiler_available(None));
}

#[test]
fn export_without_artifact_is_refused() {
    assert_eq!(begin_export("doc", false), ExportAction::Refuse(ExportError::NotFound));
    assert_eq!(ExportError::NotFound.message(), "PDF not found. Please compile first.");
}

#[test]
fn export_with_artifact_copies_it() {
    assert_eq!(begin_export("doc", true), ExportAction::Copy("doc.pdf".to_string()));
    assert_eq!(finish_export(None), Ok(()));
    assert_eq!(
        finish_export(Some("read-only file system".to_string())),
        Err(ExportError::CopyFailed("read-only file system".to_string()))
    );
    assert_eq!(
        ExportError::CopyFailed("read-only file system".to_string()).message(),
        "Failed to export PDF: read-only file system"
    );
}

#[test]
fn two_documents_share_no_file() {
    let mut first = stale_file_names("a");
    first.push(source_file_name("a"));
    let mut second = stale_file_names("a.pdf");
    second.push(source_file_name("a.pdf"));
    for name in first.iter() {
        assert!(!second.contains(name));
    }
}

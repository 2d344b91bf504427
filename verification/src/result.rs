//! The verdict of one compilation attempt.
//!
//! An attempt succeeds when the artifact exists and no diagnostic is an
//! error. Warnings alone do not fail it, and the compiler's exit status plays
//! no part. A failed attempt always carries at least one diagnostic.

use vstd::prelude::*;
use vstd::string::StringExecFns;
use crate::diagnostic::{diagnostics_of, views_of, Diagnostic, LatexError, Severity};
use crate::text::{chars_of, push_char};

verus! {

/// What one attempt hands back to the caller.
#[derive(Clone, Debug, PartialEq, Eq)]
pub struct CompilationResult {
    pub success: bool,
    pub pdf_path: Option<String>,
    pub errors: Vec<LatexError>,
}

/// What a `CompilationResult` stands for.
pub struct Verdict {
    pub success: bool,
    pub artifact: Option<Seq<char>>,
    pub diagnostics: Seq<Diagnostic>,
}

impl View for CompilationResult {
    type V = Verdict;

    open spec fn view(&self) -> Verdict {
        Verdict {
            success: self.success,
            artifact: match self.pdf_path {
                Some(p) => Some(p@),
                None => None,
            },
            diagnostics: views_of(self.errors@),
        }
    }
}

/// Whether some diagnostic is an error.
pub open spec fn has_error(diagnostics: Seq<Diagnostic>) -> bool {
    exists|i: int| 0 <= i < diagnostics.len() && (#[trigger] diagnostics[i]).severity == Severity::Error
}

/// A path with every backslash replaced by a slash.
pub open spec fn neutral_path(path: Seq<char>) -> Seq<char> {
    path.map_values(
        |c: char|
            if c == '\\' {
                '/'
            } else {
                c
            },
    )
}

/// The diagnostic that explains a missing artifact when the compiler said
/// nothing that could.
pub open spec fn missing_artifact() -> Diagnostic {
    Diagnostic { line: None, message: "artifact was not generated"@, severity: Severity::Error }
}

/// The verdict on an attempt, given the path of the artifact where the file
/// exists and the diagnostics read from the compiler's output.
pub open spec fn verdict(artifact: Option<Seq<char>>, diagnostics: Seq<Diagnostic>) -> Verdict {
    match artifact {
        None => Verdict {
            success: false,
            artifact: None,
            diagnostics: if diagnostics.len() == 0 {
                seq![missing_artifact()]
            } else {
                diagnostics
            },
        },
        Some(path) => Verdict {
            success: !has_error(diagnostics),
            artifact: Some(neutral_path(path)),
            diagnostics,
        },
    }
}

/// Every verdict names the artifact exactly where the file exists, declares
/// success exactly where the file exists and no diagnostic is an error, and
/// never fails without a diagnostic.
pub proof fn lemma_verdict_is_sound(artifact: Option<Seq<char>>, diagnostics: Seq<Diagnostic>)
    ensures
        verdict(artifact, diagnostics).artifact is Some <==> artifact is Some,
        verdict(artifact, diagnostics).success <==> artifact is Some && !has_error(
            verdict(artifact, diagnostics).diagnostics,
        ),
        !verdict(artifact, diagnostics).success ==> verdict(artifact, diagnostics).diagnostics.len()
            > 0,
        diagnostics.len() > 0 ==> verdict(artifact, diagnostics).diagnostics == diagnostics,
{
}

/// A run that leaves the artifact and whose output holds no diagnostic
/// succeeds, with the artifact's path and no diagnostics.
pub proof fn lemma_clean_run_succeeds(output: Seq<char>, path: Seq<char>)
    requires
        diagnostics_of(output).len() == 0,
    ensures
        verdict(Some(path), diagnostics_of(output)).success,
        verdict(Some(path), diagnostics_of(output)).artifact == Some(neutral_path(path)),
        verdict(Some(path), diagnostics_of(output)).diagnostics.len() == 0,
{
}

/// A run that leaves no artifact and whose output holds no diagnostic fails
/// with exactly one diagnostic, the one that says so.
pub proof fn lemma_silent_failure_is_explained(output: Seq<char>)
    requires
        diagnostics_of(output).len() == 0,
    ensures
        !verdict(None, diagnostics_of(output)).success,
        verdict(None, diagnostics_of(output)).artifact is None,
        verdict(None, diagnostics_of(output)).diagnostics == seq![missing_artifact()],
{
}

/// Two runs that capture the same output, and both leave the artifact or
/// both leave none, agree in their diagnostics and in their success.
pub proof fn lemma_equal_runs_agree(
    output1: Seq<char>,
    artifact1: Option<Seq<char>>,
    output2: Seq<char>,
    artifact2: Option<Seq<char>>,
)
    requires
        output1 == output2,
        artifact1 is Some <==> artifact2 is Some,
    ensures
        verdict(artifact1, diagnostics_of(output1)).diagnostics == verdict(
            artifact2,
            diagnostics_of(output2),
        ).diagnostics,
        verdict(artifact1, diagnostics_of(output1)).success == verdict(
            artifact2,
            diagnostics_of(output2),
        ).success,
{
}

/// A normalized path holds no backslash, and normalizing it again changes
/// nothing.
pub proof fn lemma_neutral_path(path: Seq<char>)
    ensures
        neutral_path(path).len() == path.len(),
        forall|i: int| 0 <= i < path.len() ==> neutral_path(path)[i] != '\\',
        neutral_path(neutral_path(path)) == neutral_path(path),
{
    assert(neutral_path(neutral_path(path)) =~= neutral_path(path));
}

/// Whether any of the records is an error.
pub fn any_error(errors: &Vec<LatexError>) -> (b: bool)
    ensures
        b == has_error(views_of(errors@)),
{
    let mut i: usize = 0;
    while i < errors.len()
        invariant
            i <= errors.len(),
            forall|k: int| 0 <= k < i ==> (#[trigger] views_of(errors@)[k]).severity != Severity::Error,
        decreases errors.len() - i,
    {
        if errors[i].severity == Severity::Error {
            assert(views_of(errors@)[i as int].severity == Severity::Error);
            return true;
        }
        i += 1;
    }
    false
}

/// Rewrites a path with slashes as its only separators.
pub fn normalize_separators(path: &str) -> (r: String)
    ensures
        r@ == neutral_path(path@),
{
    let v = chars_of(path);
    let mut r = String::new();
    let mut i: usize = 0;
    while i < v.len()
        invariant
            i <= v.len(),
            r@ == neutral_path(v@.take(i as int)),
        decreases v.len() - i,
    {
        let c = if v[i] == '\\' {
            '/'
        } else {
            v[i]
        };
        push_char(&mut r, c);
        i += 1;
        assert(r@ =~= neutral_path(v@.take(i as int)));
    }
    assert(v@.take(i as int) =~= v@);
    r
}

/// Assembles the result of an attempt from the artifact's path, given where
/// the file exists at the end of the attempt, and the diagnostics.
pub fn assemble_result(artifact: Option<String>, errors: Vec<LatexError>) -> (r: CompilationResult)
    ensures
        r@ == verdict(
            match artifact {
                Some(p) => Some(p@),
                None => None,
            },
            views_of(errors@),
        ),
{
    match artifact {
        None => {
            let errors = if errors.len() == 0 {
                let only = LatexError {
                    line: None,
                    message: String::from_str("artifact was not generated"),
                    severity: Severity::Error,
                };
                let v = vec![only];
                assert(views_of(v@) =~= seq![missing_artifact()]);
                v
            } else {
                errors
            };
            CompilationResult { success: false, pdf_path: None, errors }
        },
        Some(path) => {
            let failed = any_error(&errors);
            CompilationResult {
                success: !failed,
                pdf_path: Some(normalize_separators(path.as_str())),
                errors,
            }
        },
    }
}

} // verus!

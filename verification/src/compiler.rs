//! How the external compiler is called, and how its answer to a probe is
//! read.

use vstd::prelude::*;
use vstd::string::StringExecFns;
use crate::workspace::texts_of;

verus! {

/// The compiler's flags: never stop to ask for input, annotate each error
/// with file and line, and write into the directory that is named next.
pub open spec fn compiler_flags() -> Seq<Seq<char>> {
    seq!["-interaction=nonstopmode"@, "-file-line-error"@, "-output-directory"@]
}

/// Name under which the compiler is looked up in the search path.
pub fn compiler_program() -> (name: String)
    ensures
        name@ == "pdflatex"@,
{
    String::from_str("pdflatex")
}

/// The flags of a compilation. The output directory and then the path of
/// the source file follow them on the command line.
pub fn compiler_flag_list() -> (flags: Vec<String>)
    ensures
        texts_of(flags@) == compiler_flags(),
{
    let mut flags: Vec<String> = Vec::new();
    flags.push(String::from_str("-interaction=nonstopmode"));
    flags.push(String::from_str("-file-line-error"));
    flags.push(String::from_str("-output-directory"));
    assert(texts_of(flags@) =~= compiler_flags());
    flags
}

/// The flag that makes the compiler print its version and exit.
pub fn version_flag() -> (flag: String)
    ensures
        flag@ == "--version"@,
{
    String::from_str("--version")
}

/// Reads the outcome of a probe: `None` where the compiler could not be
/// started, else whether it exited with success. The compiler counts as
/// available only where it started and exited with success; a probe that
/// could not start is an answer, not an error.
pub fn compiler_available(probe: Option<bool>) -> (available: bool)
    ensures
        available == (probe == Some(true)),
{
    match probe {
        Some(exited_well) => exited_well,
        None => false,
    }
}

} // verus!

//! Names of the files that one document owns in the compilation workspace.
//!
//! Every file of a document lies directly in the workspace root and is named
//! by the document's id and an extension, so two documents never share a file.

use vstd::prelude::*;
use vstd::string::StringExecFns;

verus! {

/// Name of the source file that the compiler reads.
pub open spec fn source_name(id: Seq<char>) -> Seq<char> {
    id + ".tex"@
}

/// Name of the artifact that the compiler leaves.
pub open spec fn artifact_name(id: Seq<char>) -> Seq<char> {
    id + ".pdf"@
}

/// Names of the generated files of an earlier attempt: the artifact, then
/// the compiler's auxiliary files.
pub open spec fn stale_names(id: Seq<char>) -> Seq<Seq<char>> {
    seq![id + ".pdf"@, id + ".aux"@, id + ".log"@, id + ".out"@]
}

/// Every file name that an attempt for the document uses: the source and the
/// generated files.
pub open spec fn workspace_names(id: Seq<char>) -> Seq<Seq<char>> {
    seq![source_name(id)] + stale_names(id)
}

/// The texts of a sequence of strings.
pub open spec fn texts_of(names: Seq<String>) -> Seq<Seq<char>> {
    names.map_values(|s: String| s@)
}

/// `stem` followed by `suffix`.
pub fn with_suffix(stem: &str, suffix: &str) -> (name: String)
    ensures
        name@ == stem@ + suffix@,
{
    let name = String::from_str(stem).concat(suffix);
    name
}

pub fn source_file_name(id: &str) -> (name: String)
    ensures
        name@ == source_name(id@),
{
    with_suffix(id, ".tex")
}

pub fn artifact_file_name(id: &str) -> (name: String)
    ensures
        name@ == artifact_name(id@),
{
    with_suffix(id, ".pdf")
}

/// The files to delete before a new attempt, in the order of deletion.
pub fn stale_file_names(id: &str) -> (names: Vec<String>)
    ensures
        texts_of(names@) == stale_names(id@),
{
    let mut names: Vec<String> = Vec::new();
    names.push(with_suffix(id, ".pdf"));
    names.push(with_suffix(id, ".aux"));
    names.push(with_suffix(id, ".log"));
    names.push(with_suffix(id, ".out"));
    assert(texts_of(names@) =~= stale_names(id@));
    names
}

/// The artifact of the last attempt is among the files that the next attempt
/// deletes first, so an attempt never finds an artifact that it did not make.
pub proof fn lemma_cleanup_covers_artifact(id: Seq<char>)
    ensures
        stale_names(id).contains(artifact_name(id)),
        !stale_names(id).contains(source_name(id)),
{
    assert(stale_names(id)[0] == artifact_name(id));
    reveal_strlit(".tex");
    reveal_strlit(".pdf");
    reveal_strlit(".aux");
    reveal_strlit(".log");
    reveal_strlit(".out");
    let n = id.len() as int;
    assert(source_name(id)[n + 1] == 't');
    assert(stale_names(id)[0][n + 1] == 'p');
    assert(stale_names(id)[1][n + 1] == 'a');
    assert(stale_names(id)[2][n + 1] == 'l');
    assert(stale_names(id)[3][n + 1] == 'o');
}

/// Two documents share no file: no name of the one is a name of the other.
/// So attempts for different documents do not touch each other's files.
pub proof fn lemma_documents_share_no_file(id1: Seq<char>, id2: Seq<char>, i: int, j: int)
    requires
        id1 != id2,
        0 <= i < workspace_names(id1).len(),
        0 <= j < workspace_names(id2).len(),
    ensures
        workspace_names(id1)[i] != workspace_names(id2)[j],
{
    reveal_strlit(".tex");
    reveal_strlit(".pdf");
    reveal_strlit(".aux");
    reveal_strlit(".log");
    reveal_strlit(".out");
    let a = workspace_names(id1)[i];
    let b = workspace_names(id2)[j];
    assert(a.len() == id1.len() + 4);
    assert(b.len() == id2.len() + 4);
    if a == b {
        assert(id1.len() == id2.len());
        assert forall|k: int| 0 <= k < id1.len() implies id1[k] == id2[k] by {
            assert(a[k] == id1[k]);
            assert(b[k] == id2[k]);
        }
        assert(id1 =~= id2);
    }
}

} // verus!

//! Document records and how a new one is made.
//!
//! A document is kept by a store outside this library. What the library
//! decides is what a new document holds: a fresh id, the text it starts
//! with, and one time stamp for both of its dates.

use vstd::prelude::*;
use vstd::string::StringExecFns;
use crate::text::holds_char;
use crate::workspace::{artifact_name, source_name};

verus! {

/// A document as the store keeps it.
#[derive(Clone, Debug, PartialEq, Eq)]
pub struct Document {
    pub id: String,
    pub title: String,
    pub content: String,
    pub created_at: String,
    pub updated_at: String,
}

/// What a `Document` stands for.
pub struct DocumentText {
    pub id: Seq<char>,
    pub title: Seq<char>,
    pub content: Seq<char>,
    pub created_at: Seq<char>,
    pub updated_at: Seq<char>,
}

impl View for Document {
    type V = DocumentText;

    open spec fn view(&self) -> DocumentText {
        DocumentText {
            id: self.id@,
            title: self.title@,
            content: self.content@,
            created_at: self.created_at@,
            updated_at: self.updated_at@,
        }
    }
}

/// The text that a new document with this title starts with.
pub open spec fn default_content(title: Seq<char>) -> Seq<char> {
    "\\documentclass{article}\n\\usepackage[utf8]{inputenc}\n\n\\title{"@ + title
        + "}\n\\author{}\n\\date{\\today}\n\n\\begin{document}\n\n\\maketitle\n\n\\section{Introduction}\n\nStart writing your document here...\n\n\\end{document}"@
}

pub open spec fn is_lower_hex(c: char) -> bool {
    '0' <= c <= '9' || 'a' <= c <= 'f'
}

/// The shape of a random id: 32 lower-case hexadecimal digits in groups of
/// 8, 4, 4, 4 and 12 with a hyphen between them, the third group opening
/// with `4` and the fourth with one of `8`, `9`, `a`, `b`.
pub open spec fn is_random_id(id: Seq<char>) -> bool {
    &&& id.len() == 36
    &&& forall|i: int|
        0 <= i < 36 ==> if i == 8 || i == 13 || i == 18 || i == 23 {
            #[trigger] id[i] == '-'
        } else {
            is_lower_hex(id[i])
        }
    &&& id[14] == '4'
    &&& (id[19] == '8' || id[19] == '9' || id[19] == 'a' || id[19] == 'b')
}

/// A fresh random id.
///
/// Rests on `uuid::Uuid::new_v4` and on the `Display` of `uuid::Uuid`: the
/// first draws 128 random bits from the operating system and sets the
/// version to 4 and the variant to RFC 9562, the second writes the value
/// hyphenated in lower case. Which id comes out is not stated, only its
/// shape. `new_v4` gives up where the operating system hands out no random
/// bytes.
#[verifier::external_body]
fn random_id() -> (id: String)
    ensures
        is_random_id(id@),
{
    uuid::Uuid::new_v4().to_string()
}

/// The current time as text.
///
/// Rests on `chrono::Utc::now` and `chrono::DateTime::to_rfc3339`. Nothing is
/// stated of the text, which differs from call to call. `now` gives up where
/// the system clock stands before 1970.
#[verifier::external_body]
fn time_stamp() -> (stamp: String) {
    chrono::Utc::now().to_rfc3339()
}

/// The text that a new document with this title starts with.
pub fn starting_content(title: &str) -> (content: String)
    ensures
        content@ == default_content(title@),
{
    String::from_str("\\documentclass{article}\n\\usepackage[utf8]{inputenc}\n\n\\title{").concat(
        title,
    ).concat(
        "}\n\\author{}\n\\date{\\today}\n\n\\begin{document}\n\n\\maketitle\n\n\\section{Introduction}\n\nStart writing your document here...\n\n\\end{document}",
    )
}

impl Document {
    /// The new document with this id and title, made at the time `stamp`.
    pub fn new(id: String, title: String, stamp: String) -> (doc: Document)
        ensures
            doc@ == (DocumentText {
                id: id@,
                title: title@,
                content: default_content(title@),
                created_at: stamp@,
                updated_at: stamp@,
            }),
    {
        let content = starting_content(title.as_str());
        let created_at = stamp.clone();
        Document { id, title, content, created_at, updated_at: stamp }
    }

    /// A new document with this title, a fresh random id and the current
    /// time as both of its dates.
    pub fn draft(title: String) -> (doc: Document)
        ensures
            is_random_id(doc@.id),
            doc@.title == title@,
            doc@.content == default_content(title@),
            doc@.created_at == doc@.updated_at,
    {
        Document::new(random_id(), title, time_stamp())
    }
}

/// The files of a document with a random id lie directly in the workspace:
/// their names hold no path separator.
pub proof fn lemma_random_id_stays_in_workspace(id: Seq<char>)
    requires
        is_random_id(id),
    ensures
        !holds_char(source_name(id), '/'),
        !holds_char(source_name(id), '\\'),
        !holds_char(artifact_name(id), '/'),
        !holds_char(artifact_name(id), '\\'),
{
    reveal_strlit(".tex");
    reveal_strlit(".pdf");
    lemma_no_separator(id, ".tex"@);
    lemma_no_separator(id, ".pdf"@);
}

proof fn lemma_no_separator(id: Seq<char>, ext: Seq<char>)
    requires
        is_random_id(id),
        forall|i: int| 0 <= i < ext.len() ==> ext[i] != '/' && ext[i] != '\\',
    ensures
        !holds_char(id + ext, '/'),
        !holds_char(id + ext, '\\'),
{
    let name = id + ext;
    assert forall|i: int| 0 <= i < name.len() implies name[i] != '/' && name[i] != '\\' by {
        if i < 36 {
            assert(name[i] == id[i]);
            if i == 8 || i == 13 || i == 18 || i == 23 {
                assert(id[i] == '-');
            } else {
                assert(is_lower_hex(id[i]));
            }
        } else {
            assert(name[i] == ext[i - 36]);
        }
    }
    crate::text::lemma_first_index_is(name, '/', name.len() as int);
    crate::text::lemma_first_index_is(name, '\\', name.len() as int);
}

} // verus!

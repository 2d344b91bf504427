use vitae::document::starting_content;
use vitae::Document;

const EXPECTED: &str = "\\documentclass{article}\n\\usepackage[utf8]{inputenc}\n\n\\title{My Title}\n\\author{}\n\\date{\\today}\n\n\\begin{document}\n\n\\maketitle\n\n\\section{Introduction}\n\nStart writing your document here...\n\n\\end{document}";

#[test]
fn starting_content_holds_the_title() {
    assert_eq!(starting_content("My Title"), EXPECTED);
    assert_eq!(starting_content("%TITLE%"), EXPECTED.replace("My Title", "%TITLE%"));
    assert_eq!(starting_content(""), EXPECTED.replace("My Title", ""));
}

#[test]
fn new_document_from_its_parts() {
    let doc = Document::new("id-1".to_string(), "My Title".to_string(), "2024-01-02T03:04:05+00:00".to_string());
    assert_eq!(
        doc,
        Document {
            id: "id-1".to_string(),
            title: "My Title".to_string(),
            content: EXPECTED.to_string(),
            created_at: "2024-01-02T03:04:05+00:00".to_string(),
            updated_at: "2024-01-02T03:04:05+00:00".to_string(),
        }
    );
}

#[test]
fn draft_has_a_random_id_of_the_stated_shape() {
    let doc = Document::draft("T".to_string());
    let id: Vec<char> = doc.id.chars().collect();
    assert_eq!(id.len(), 36);
    for (i, c) in id.iter().enumerate() {
        if i == 8 || i == 13 || i == 18 || i == 23 {
            assert_eq!(*c, '-');
        } else {
            assert!(('0'..='9').contains(c) || ('a'..='f').contains(c));
        }
    }
    assert_eq!(id[14], '4');
    assert!(matches!(id[19], '8' | '9' | 'a' | 'b'));
    let other = Document::draft("T".to_string());
    assert_ne!(doc.id, other.id);
}

#[test]
fn draft_is_stamped_once() {
    let doc = Document::draft("Title".to_string());
    assert_eq!(doc.title, "Title");
    assert_eq!(doc.content, starting_content("Title"));
    assert_eq!(doc.created_at, doc.updated_at);
    assert!(doc.created_at.len() >= 20);
    assert!(doc.created_at.contains('T'));
    assert!(doc.created_at.ends_with("+00:00"));
}

use vector_store::{
    chunks_from_matches, classify, is_entire_file_type, whole_file_document, Capture, CaptureKind,
    CaptureRoles, CodeContextRetriever, EmbeddingConfig, ExtractionError, Grammar,
    LanguageDescriptor,
};

fn roles(context: Option<u32>) -> CaptureRoles {
    CaptureRoles { item_capture_ix: 0, name_capture_ix: 1, context_capture_ix: context }
}

fn cap(index: u32, start: usize, end: usize) -> Capture {
    Capture { index, start, end }
}

fn python(with_query: bool) -> LanguageDescriptor {
    let ts = tree_sitter_python::language();
    let config = if with_query {
        let query =
            tree_sitter::Query::new(ts, "(function_definition name: (identifier) @name) @item")
                .unwrap();
        let item = query.capture_index_for_name("item").unwrap();
        let name = query.capture_index_for_name("name").unwrap();
        Some(EmbeddingConfig {
            query,
            item_capture_ix: item,
            name_capture_ix: name,
            context_capture_ix: None,
        })
    } else {
        None
    };
    LanguageDescriptor {
        name: "Python".to_string(),
        grammar: Some(Grammar { ts_language: ts, embedding_config: config }),
    }
}

#[test]
fn whole_file_language_gives_one_chunk() {
    let mut r = CodeContextRetriever::new();
    let lang = LanguageDescriptor { name: "JSON".to_string(), grammar: None };
    let content = "{\"a\": 1}\n";
    let docs = r.parse_file("conf/x.json", content, &lang).unwrap();
    assert_eq!(docs.len(), 1);
    assert_eq!(docs[0].range, 0..content.len());
    assert_eq!(docs[0].name, "JSON");
    assert_eq!(
        docs[0].content,
        "The below snippet is from file 'conf/x.json'\n\n```JSON\n{\"a\": 1}\n\n```"
    );
}

#[test]
fn whole_file_set_members() {
    for n in ["TOML", "YAML", "JSON", "CSS"] {
        assert!(is_entire_file_type(n));
    }
    assert!(!is_entire_file_type("Python"));
    assert!(!is_entire_file_type("toml"));
    assert!(!is_entire_file_type(""));
}

#[test]
fn whole_file_with_grammar_still_one_chunk() {
    let mut r = CodeContextRetriever::new();
    let mut lang = python(true);
    lang.name = "CSS".to_string();
    let docs = r.parse_file("a.css", "def f():\n    pass\n", &lang).unwrap();
    assert_eq!(docs.len(), 1);
    assert_eq!(docs[0].range, 0..18);
    assert_eq!(docs[0].name, "CSS");
}

#[test]
fn whole_file_document_of_empty_content() {
    let d = whole_file_document("e.toml", "TOML", "");
    assert_eq!(d.range, 0..0);
    assert_eq!(d.content, "The below snippet is from file 'e.toml'\n\n```TOML\n\n```");
}

#[test]
fn item_and_name_give_exact_chunk() {
    let content = "fn main() {}";
    let docs = chunks_from_matches(
        "src/main.rs",
        "rust",
        content,
        &roles(None),
        &vec![vec![cap(0, 0, 12), cap(1, 3, 7)]],
    );
    assert_eq!(docs.len(), 1);
    assert_eq!(docs[0].range, 0..12);
    assert_eq!(docs[0].name, "main");
    assert_eq!(
        docs[0].content,
        "The below code snippet is from file 'src/main.rs'\n\n```rust\nfn main() {}\n```"
    );
}

#[test]
fn shared_name_range_goes_to_first_match() {
    let content = "class A:\n    def b(self): pass\n";
    let docs = chunks_from_matches(
        "a.py",
        "python",
        content,
        &roles(None),
        &vec![
            vec![cap(0, 13, 30), cap(1, 17, 18)],
            vec![cap(0, 0, 30), cap(1, 17, 18)],
        ],
    );
    assert_eq!(docs.len(), 1);
    assert_eq!(docs[0].name, "b");
    assert_eq!(docs[0].range, 13..30);
}

#[test]
fn shared_name_keeps_other_names() {
    let content = "class A:\n    def b(self): pass\n";
    let docs = chunks_from_matches(
        "a.py",
        "python",
        content,
        &roles(None),
        &vec![
            vec![cap(0, 13, 30), cap(1, 17, 18)],
            vec![cap(0, 0, 30), cap(1, 6, 7), cap(1, 17, 18)],
        ],
    );
    assert_eq!(docs.len(), 2);
    assert_eq!(docs[1].name, "A");
}

#[test]
fn several_names_joined_by_space() {
    let content = "impl Foo for Bar {}";
    let docs = chunks_from_matches(
        "x.rs",
        "rust",
        content,
        &roles(None),
        &vec![vec![cap(1, 5, 8), cap(0, 0, 19), cap(1, 13, 16)]],
    );
    assert_eq!(docs.len(), 1);
    assert_eq!(docs[0].name, "Foo Bar");
}

#[test]
fn match_without_name_is_dropped() {
    let content = "def f(): pass";
    let docs = chunks_from_matches(
        "a.py",
        "python",
        content,
        &roles(None),
        &vec![vec![cap(0, 0, 13)], vec![cap(0, 0, 13), cap(7, 4, 5)]],
    );
    assert!(docs.is_empty());
}

#[test]
fn match_without_item_is_dropped() {
    let docs = chunks_from_matches(
        "a.py",
        "python",
        "def f(): pass",
        &roles(None),
        &vec![vec![cap(1, 4, 5)]],
    );
    assert!(docs.is_empty());
}

#[test]
fn item_outside_content_is_dropped() {
    let docs = chunks_from_matches(
        "a.py",
        "python",
        "def f(): pass",
        &roles(None),
        &vec![vec![cap(0, 0, 40), cap(1, 4, 5)]],
    );
    assert!(docs.is_empty());
}

#[test]
fn item_off_char_boundary_is_dropped() {
    let docs = chunks_from_matches(
        "a.py",
        "python",
        "x = \"é\"",
        &roles(None),
        &vec![vec![cap(0, 0, 6), cap(1, 0, 1)]],
    );
    assert!(docs.is_empty());
}

#[test]
fn context_line_prepended_to_body() {
    let content = "class Foo:\ndef bar(): pass";
    let docs = chunks_from_matches(
        "a.py",
        "python",
        content,
        &roles(Some(2)),
        &vec![vec![cap(2, 0, 10), cap(0, 11, 26), cap(1, 15, 18)]],
    );
    assert_eq!(docs.len(), 1);
    assert_eq!(docs[0].range, 11..26);
    assert_eq!(docs[0].name, "bar");
    assert_eq!(
        docs[0].content,
        "The below code snippet is from file 'a.py'\n\n```python\nclass Foo:\ndef bar(): pass\n```"
    );
}

#[test]
fn two_context_lines_joined_by_newline() {
    let content = "mod m {\nimpl S {\nfn g() {}";
    let docs = chunks_from_matches(
        "m.rs",
        "rust",
        content,
        &roles(Some(2)),
        &vec![vec![cap(2, 0, 7), cap(2, 8, 16), cap(0, 17, 26), cap(1, 20, 21)]],
    );
    assert_eq!(docs.len(), 1);
    assert_eq!(
        docs[0].content,
        "The below code snippet is from file 'm.rs'\n\n```rust\nmod m {\nimpl S {\nfn g() {}\n```"
    );
}

#[test]
fn python_function_scenario() {
    let content = "def f():\n    pass\n";
    let docs = chunks_from_matches(
        "a.py",
        "python",
        content,
        &roles(None),
        &vec![vec![cap(0, 0, 18), cap(1, 4, 5)]],
    );
    assert_eq!(docs.len(), 1);
    assert_eq!(docs[0].name, "f");
    assert_eq!(docs[0].range, 0..18);
    assert_eq!(
        docs[0].content,
        "The below code snippet is from file 'a.py'\n\n```python\ndef f():\n    pass\n\n```"
    );
}

#[test]
fn python_file_through_parser() {
    let mut r = CodeContextRetriever::new();
    let docs = r.parse_file("a.py", "def f():\n    pass\n", &python(true)).unwrap();
    assert_eq!(docs.len(), 1);
    assert_eq!(docs[0].name, "f");
    assert_eq!(docs[0].range, 0..17);
    assert_eq!(
        docs[0].content,
        "The below code snippet is from file 'a.py'\n\n```python\ndef f():\n    pass\n```"
    );
}

#[test]
fn extraction_is_repeatable() {
    let content = "def f():\n    pass\n\ndef g():\n    return 1\n";
    let lang = python(true);
    let mut r = CodeContextRetriever::new();
    let first = r.parse_file("a.py", content, &lang).unwrap();
    let mut r2 = CodeContextRetriever::new();
    let second = r2.parse_file("a.py", content, &lang).unwrap();
    let again = r.parse_file("a.py", content, &lang).unwrap();
    assert_eq!(first.len(), 2);
    assert_eq!(first, second);
    assert_eq!(first, again);
}

#[test]
fn missing_grammar_error() {
    let mut r = CodeContextRetriever::new();
    let lang = LanguageDescriptor { name: "Rust".to_string(), grammar: None };
    assert_eq!(r.parse_file("a.rs", "fn f() {}", &lang), Err(ExtractionError::MissingGrammar));
}

#[test]
fn missing_query_config_error() {
    let mut r = CodeContextRetriever::new();
    assert_eq!(
        r.parse_file("a.py", "def f(): pass", &python(false)),
        Err(ExtractionError::MissingQueryConfig)
    );
}

#[test]
fn classify_roles() {
    let ro = roles(Some(2));
    assert_eq!(classify(&cap(0, 0, 0), &ro), CaptureKind::Item);
    assert_eq!(classify(&cap(1, 0, 0), &ro), CaptureKind::Name);
    assert_eq!(classify(&cap(2, 0, 0), &ro), CaptureKind::Context);
    assert_eq!(classify(&cap(3, 0, 0), &ro), CaptureKind::Other);
    assert_eq!(classify(&cap(2, 0, 0), &roles(None)), CaptureKind::Other);
}

#[test]
fn placeholders_in_path_are_replaced_in_order() {
    let docs = chunks_from_matches(
        "x/<language>/<item>.rs",
        "rust",
        "fn g() {}",
        &roles(None),
        &vec![vec![cap(0, 0, 9), cap(1, 3, 4)]],
    );
    assert_eq!(docs.len(), 1);
    assert_eq!(
        docs[0].content,
        "The below code snippet is from file 'x/rust/fn g() {}.rs'\n\n```rust\nfn g() {}\n```"
    );
}

#[test]
fn body_placeholders_are_kept() {
    let d = whole_file_document("p.yaml", "YAML", "a: <path> <language> <item>");
    assert_eq!(
        d.content,
        "The below snippet is from file 'p.yaml'\n\n```YAML\na: <path> <language> <item>\n```"
    );
}

#[test]
fn document_clone_is_equal() {
    let d = whole_file_document("c.css", "CSS", "a {}");
    let e = d.clone();
    assert_eq!(d, e);
}

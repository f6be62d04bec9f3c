use vstd::prelude::*;
use vstd::string::*;

use crate::chunks::{
    chunks_from_matches, doc_views, extract_docs, whole_file_document, whole_file_view, Capture,
    CaptureRoles, Document, ExtractionError,
};
use crate::text::{entire_file_type, is_entire_file_type};

verus! {

#[verifier::external_type_specification]
#[verifier::external_body]
pub struct ExParser(tree_sitter::Parser);

#[verifier::external_type_specification]
#[verifier::external_body]
pub struct ExQueryCursor(tree_sitter::QueryCursor);

#[verifier::external_type_specification]
#[verifier::external_body]
pub struct ExQuery(tree_sitter::Query);

#[verifier::external_type_specification]
#[verifier::external_body]
pub struct ExTsLanguage(tree_sitter::Language);

#[verifier::external_type_specification]
#[verifier::external_body]
pub struct ExLanguageError(tree_sitter::LanguageError);

/// Relies on tree_sitter::Parser::new, which makes a parser with no language set.
pub assume_specification[ tree_sitter::Parser::new ]() -> tree_sitter::Parser;

/// Relies on tree_sitter::QueryCursor::new, which makes an idle query cursor.
pub assume_specification[ tree_sitter::QueryCursor::new ]() -> tree_sitter::QueryCursor;

/// Relies on tree_sitter::Parser::set_language: it sets the grammar, or fails
/// when the grammar's version is not one this tree-sitter reads.
#[verifier::external_body]
fn set_grammar(parser: &mut tree_sitter::Parser, grammar: &tree_sitter::Language) -> (r: Result<
    (),
    tree_sitter::LanguageError,
>) {
    parser.set_language(*grammar)
}

/// Relies on tree_sitter::Parser::parse, which builds a syntax tree of the text
/// under the parser's grammar or returns none, and on tree_sitter::QueryCursor::matches
/// run on that tree's root node with the same text, so every node range lies in the
/// text. Each match is handed back as its captures' indices and node byte ranges, in order.
#[verifier::external_body]
fn parse_and_match(
    parser: &mut tree_sitter::Parser,
    cursor: &mut tree_sitter::QueryCursor,
    query: &tree_sitter::Query,
    text: &str,
) -> (r: Option<Vec<Vec<Capture>>>) {
    let tree = parser.parse(text, None)?;
    let matches = cursor.matches(query, tree.root_node(), text.as_bytes());
    Some(matches.map(|m| m.captures.iter().map(
        |c| Capture { index: c.index, start: c.node.start_byte(), end: c.node.end_byte() },
    ).collect()).collect())
}

pub uninterp spec fn lower_of(s: Seq<char>) -> Seq<char>;

/// Relies on str::to_lowercase: the result depends on the characters alone.
#[verifier::external_body]
fn lowercase(s: &str) -> (r: String)
    ensures
        r@ == lower_of(s@),
{
    s.to_lowercase()
}

/// A structural query over a grammar, with the capture indices that mark the
/// chunk's item, its name and, optionally, its surrounding context.
pub struct EmbeddingConfig {
    pub query: tree_sitter::Query,
    pub item_capture_ix: u32,
    pub name_capture_ix: u32,
    pub context_capture_ix: Option<u32>,
}

impl EmbeddingConfig {
    pub open spec fn roles(&self) -> CaptureRoles {
        CaptureRoles {
            item_capture_ix: self.item_capture_ix,
            name_capture_ix: self.name_capture_ix,
            context_capture_ix: self.context_capture_ix,
        }
    }
}

/// A grammar and, if files of it are cut into chunks, its structural query.
pub struct Grammar {
    pub ts_language: tree_sitter::Language,
    pub embedding_config: Option<EmbeddingConfig>,
}

/// A language: its display name and, if known, its grammar.
pub struct LanguageDescriptor {
    pub name: String,
    pub grammar: Option<Grammar>,
}

/// Extracts chunks from files, reusing its parser and query cursor across calls.
pub struct CodeContextRetriever {
    pub parser: tree_sitter::Parser,
    pub cursor: tree_sitter::QueryCursor,
}

impl CodeContextRetriever {
    pub fn new() -> (r: Self) {
        CodeContextRetriever {
            parser: tree_sitter::Parser::new(),
            cursor: tree_sitter::QueryCursor::new(),
        }
    }

    /// Cuts `content`, the text of the file at `relative_path`, into chunks.
    pub fn parse_file(&mut self, relative_path: &str, content: &str, language: &LanguageDescriptor) -> (r:
        Result<Vec<Document>, ExtractionError>)
        ensures
            entire_file_type(language.name@) ==> r is Ok && doc_views(r->Ok_0@) == seq![
                whole_file_view(relative_path@, language.name@, content@),
            ],
            !entire_file_type(language.name@) && language.grammar is None ==> r == Err::<
                Vec<Document>,
                ExtractionError,
            >(ExtractionError::MissingGrammar),
            !entire_file_type(language.name@) && language.grammar is Some
                && language.grammar->0.embedding_config is None ==> r == Err::<
                Vec<Document>,
                ExtractionError,
            >(ExtractionError::MissingQueryConfig),
            !entire_file_type(language.name@) && language.grammar is Some
                && language.grammar->0.embedding_config is Some ==> {
                let config = language.grammar->0.embedding_config->0;
                &&& r is Err ==> r == Err::<Vec<Document>, ExtractionError>(
                    ExtractionError::ParseFailure,
                )
                &&& r is Ok ==> exists|ms: Seq<Seq<Capture>>|
                    doc_views(#[trigger] r->Ok_0@) == extract_docs(
                        relative_path@,
                        lower_of(language.name@),
                        content@,
                        config.roles(),
                        ms,
                    )
            },
    {
        let name = language.name.as_str();
        if is_entire_file_type(name) {
            let d = whole_file_document(relative_path, name, content);
            let docs = vec![d];
            assert(doc_views(docs@) =~= seq![whole_file_view(relative_path@, name@, content@)]);
            return Ok(docs);
        }
        let grammar = match &language.grammar {
            Some(g) => g,
            None => return Err(ExtractionError::MissingGrammar),
        };
        let config = match &grammar.embedding_config {
            Some(c) => c,
            None => return Err(ExtractionError::MissingQueryConfig),
        };
        match set_grammar(&mut self.parser, &grammar.ts_language) {
            Ok(()) => {},
            Err(_) => return Err(ExtractionError::ParseFailure),
        }
        let matches = match parse_and_match(
            &mut self.parser,
            &mut self.cursor,
            &config.query,
            content,
        ) {
            Some(m) => m,
            None => return Err(ExtractionError::ParseFailure),
        };
        let label = lowercase(name);
        let roles = CaptureRoles {
            item_capture_ix: config.item_capture_ix,
            name_capture_ix: config.name_capture_ix,
            context_capture_ix: config.context_capture_ix,
        };
        let docs = chunks_from_matches(relative_path, label.as_str(), content, &roles, &matches);
        Ok(docs)
    }
}

} // verus!

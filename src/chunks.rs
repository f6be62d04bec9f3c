use std::ops::Range;
use vstd::prelude::*;
use vstd::string::*;
use vstd::utf8::*;

use crate::text::{join, join_strings, replace_all, replaced, slice_text, text_at, views};

verus! {

/// The role a capture plays within a structural match.
#[derive(PartialEq, Eq, Structural, Clone, Copy, Debug)]
pub enum CaptureKind {
    Item,
    Name,
    Context,
    Other,
}

/// One capture of a query match: its capture index and the byte range of its node.
#[derive(PartialEq, Eq, Structural, Clone, Copy, Debug)]
pub struct Capture {
    pub index: u32,
    pub start: usize,
    pub end: usize,
}

/// The capture indices that mark a match's item, its name and, optionally, its context.
#[derive(PartialEq, Eq, Structural, Clone, Copy, Debug)]
pub struct CaptureRoles {
    pub item_capture_ix: u32,
    pub name_capture_ix: u32,
    pub context_capture_ix: Option<u32>,
}

/// Why extraction of a file failed.
#[derive(PartialEq, Eq, Structural, Clone, Copy, Debug)]
pub enum ExtractionError {
    MissingGrammar,
    MissingQueryConfig,
    ParseFailure,
}

/// An embeddable chunk: its label, the byte range it came from, and its prompt text.
#[derive(Debug, PartialEq)]
pub struct Document {
    pub name: String,
    pub range: Range<usize>,
    pub content: String,
}

impl Clone for Document {
    fn clone(&self) -> (r: Self)
        ensures
            r@ == self@,
    {
        Document {
            name: self.name.clone(),
            range: Range { start: self.range.start, end: self.range.end },
            content: self.content.clone(),
        }
    }
}

pub struct DocumentView {
    pub name: Seq<char>,
    pub start: usize,
    pub end: usize,
    pub content: Seq<char>,
}

impl View for Document {
    type V = DocumentView;

    open spec fn view(&self) -> DocumentView {
        DocumentView {
            name: self.name@,
            start: self.range.start,
            end: self.range.end,
            content: self.content@,
        }
    }
}

pub open spec fn match_views(m: Seq<Vec<Capture>>) -> Seq<Seq<Capture>> {
    m.map_values(|v: Vec<Capture>| v@)
}

pub open spec fn doc_views(v: Seq<Document>) -> Seq<DocumentView> {
    v.map_values(|d: Document| d@)
}

pub open spec fn kind_of(c: Capture, roles: CaptureRoles) -> CaptureKind {
    if c.index == roles.item_capture_ix {
        CaptureKind::Item
    } else if c.index == roles.name_capture_ix {
        CaptureKind::Name
    } else if roles.context_capture_ix == Some(c.index) {
        CaptureKind::Context
    } else {
        CaptureKind::Other
    }
}

/// What a match has gathered after some of its captures, and the name ranges
/// consumed in the file so far.
pub struct MatchScan {
    pub names: Seq<Seq<char>>,
    pub item: Option<(Option<Seq<char>>, usize, usize)>,
    pub contexts: Seq<Seq<char>>,
    pub consumed: Seq<(usize, usize)>,
}

pub open spec fn step(content: Seq<char>, roles: CaptureRoles, st: MatchScan, c: Capture) -> MatchScan {
    let text = text_at(content, c.start as int, c.end as int);
    match kind_of(c, roles) {
        CaptureKind::Item => MatchScan { item: Some((text, c.start, c.end)), ..st },
        CaptureKind::Name => if st.consumed.contains((c.start, c.end)) {
            st
        } else {
            MatchScan {
                names: match text {
                    Some(t) => st.names.push(t),
                    None => st.names,
                },
                consumed: st.consumed.push((c.start, c.end)),
                ..st
            }
        },
        CaptureKind::Context => match text {
            Some(t) => MatchScan { contexts: st.contexts.push(t), ..st },
            None => st,
        },
        CaptureKind::Other => st,
    }
}

/// The captures of one match taken in order, starting from the consumed name ranges.
pub open spec fn scan(
    content: Seq<char>,
    roles: CaptureRoles,
    caps: Seq<Capture>,
    consumed: Seq<(usize, usize)>,
) -> MatchScan
    decreases caps.len(),
{
    if caps.len() == 0 {
        MatchScan { names: seq![], item: None, contexts: seq![], consumed }
    } else {
        step(content, roles, scan(content, roles, caps.drop_last(), consumed), caps.last())
    }
}

pub open spec fn body_of(contexts: Seq<Seq<char>>, item: Seq<char>) -> Seq<char> {
    if contexts.len() == 0 {
        item
    } else {
        join(contexts, "\n"@) + "\n"@ + item
    }
}

pub open spec fn code_template() -> Seq<char> {
    "The below code snippet is from file '<path>'\n\n```<language>\n<item>\n```"@
}

pub open spec fn file_template() -> Seq<char> {
    "The below snippet is from file '<path>'\n\n```<language>\n<item>\n```"@
}

/// A template with `<path>`, then `<language>`, then `<item>` replaced in turn.
pub open spec fn fill(template: Seq<char>, path: Seq<char>, language: Seq<char>, body: Seq<char>) -> Seq<char> {
    replaced(replaced(replaced(template, "<path>"@, path), "<language>"@, language), "<item>"@, body)
}

/// The prompt for a chunk cut out of a file by a structural query.
pub open spec fn code_prompt(path: Seq<char>, label: Seq<char>, body: Seq<char>) -> Seq<char> {
    fill(code_template(), path, label, body)
}

/// The prompt for a chunk that holds a whole file.
pub open spec fn file_prompt(path: Seq<char>, name: Seq<char>, body: Seq<char>) -> Seq<char> {
    fill(file_template(), path, name, body)
}

pub open spec fn chunk_of(path: Seq<char>, label: Seq<char>, st: MatchScan) -> Option<DocumentView> {
    match st.item {
        Some((Some(t), s, e)) => if st.names.len() > 0 {
            Some(
                DocumentView {
                    name: join(st.names, " "@),
                    start: s,
                    end: e,
                    content: code_prompt(path, label, body_of(st.contexts, t)),
                },
            )
        } else {
            None
        },
        _ => None,
    }
}

pub open spec fn option_seq<T>(o: Option<T>) -> Seq<T> {
    match o {
        Some(x) => seq![x],
        None => seq![],
    }
}

/// The chunks of a sequence of matches, and the name ranges they consumed.
pub open spec fn extract_from(
    path: Seq<char>,
    label: Seq<char>,
    content: Seq<char>,
    roles: CaptureRoles,
    matches: Seq<Seq<Capture>>,
) -> (Seq<DocumentView>, Seq<(usize, usize)>)
    decreases matches.len(),
{
    if matches.len() == 0 {
        (seq![], seq![])
    } else {
        let prev = extract_from(path, label, content, roles, matches.drop_last());
        let st = scan(content, roles, matches.last(), prev.1);
        (prev.0 + option_seq(chunk_of(path, label, st)), st.consumed)
    }
}

pub open spec fn extract_docs(
    path: Seq<char>,
    label: Seq<char>,
    content: Seq<char>,
    roles: CaptureRoles,
    matches: Seq<Seq<Capture>>,
) -> Seq<DocumentView> {
    extract_from(path, label, content, roles, matches).0
}

pub open spec fn whole_file_view(path: Seq<char>, name: Seq<char>, content: Seq<char>) -> DocumentView {
    DocumentView {
        name: name,
        start: 0,
        end: encode_utf8(content).len() as usize,
        content: file_prompt(path, name, content),
    }
}

/// Classifies a capture by its index against the roles of a query.
pub fn classify(c: &Capture, roles: &CaptureRoles) -> (r: CaptureKind)
    ensures
        r == kind_of(*c, *roles),
{
    if c.index == roles.item_capture_ix {
        CaptureKind::Item
    } else if c.index == roles.name_capture_ix {
        CaptureKind::Name
    } else {
        match roles.context_capture_ix {
            Some(ix) => if ix == c.index {
                CaptureKind::Context
            } else {
                CaptureKind::Other
            },
            None => CaptureKind::Other,
        }
    }
}

pub open spec fn item_view(o: Option<(Option<String>, usize, usize)>) -> Option<
    (Option<Seq<char>>, usize, usize),
> {
    match o {
        Some((Some(t), s, e)) => Some((Some(t@), s, e)),
        Some((None, s, e)) => Some((None, s, e)),
        None => None,
    }
}

/// Whether the byte range `start..end` is among the consumed name ranges.
fn range_seen(seen: &Vec<(usize, usize)>, start: usize, end: usize) -> (r: bool)
    ensures
        r == seen@.contains((start, end)),
{
    let mut i: usize = 0;
    while i < seen.len()
        invariant
            i <= seen@.len(),
            forall|j: int| 0 <= j < i ==> seen@[j] != (start, end),
        decreases seen@.len() - i,
    {
        let (s, e) = seen[i];
        if s == start && e == end {
            assert(seen@[i as int] == (start, end));
            return true;
        }
        i = i + 1;
    }
    false
}

/// Gathers the names, the item and the context texts of one match, recording
/// each newly seen name range in `seen`.
fn scan_match(
    content: &str,
    roles: &CaptureRoles,
    caps: &Vec<Capture>,
    seen: &mut Vec<(usize, usize)>,
) -> (r: (Vec<String>, Option<(Option<String>, usize, usize)>, Vec<String>))
    ensures
        ({
            let st = scan(content@, *roles, caps@, old(seen)@);
            &&& views(r.0@) == st.names
            &&& item_view(r.1) == st.item
            &&& views(r.2@) == st.contexts
            &&& final(seen)@ == st.consumed
        }),
{
    let mut names: Vec<String> = Vec::new();
    let mut item: Option<(Option<String>, usize, usize)> = None;
    let mut contexts: Vec<String> = Vec::new();
    let ghost seen0 = seen@;
    let mut i: usize = 0;
    while i < caps.len()
        invariant
            i <= caps@.len(),
            ({
                let st = scan(content@, *roles, caps@.take(i as int), seen0);
                &&& views(names@) == st.names
                &&& item_view(item) == st.item
                &&& views(contexts@) == st.contexts
                &&& seen@ == st.consumed
            }),
        decreases caps@.len() - i,
    {
        let c = caps[i];
        assert(caps@.take(i as int + 1).drop_last() =~= caps@.take(i as int));
        match classify(&c, roles) {
            CaptureKind::Item => {
                item = Some((slice_text(content, c.start, c.end), c.start, c.end));
            },
            CaptureKind::Name => {
                if !range_seen(seen, c.start, c.end) {
                    seen.push((c.start, c.end));
                    match slice_text(content, c.start, c.end) {
                        Some(t) => {
                            let ghost before = names@;
                            names.push(t);
                            assert(views(names@) =~= views(before).push(names@.last()@));
                        },
                        None => {},
                    }
                }
            },
            CaptureKind::Context => {
                match slice_text(content, c.start, c.end) {
                    Some(t) => {
                        let ghost before = contexts@;
                        contexts.push(t);
                        assert(views(contexts@) =~= views(before).push(contexts@.last()@));
                    },
                    None => {},
                }
            },
            CaptureKind::Other => {},
        }
        i = i + 1;
    }
    assert(caps@.take(caps@.len() as int) =~= caps@);
    (names, item, contexts)
}

/// Fills a template: `<path>`, then `<language>`, then `<item>`, each replaced in turn.
fn fill_template(template: &str, path: &str, language: &str, body: &str) -> (r: String)
    ensures
        r@ == fill(template@, path@, language@, body@),
{
    proof {
        reveal_strlit("<path>");
        reveal_strlit("<language>");
        reveal_strlit("<item>");
    }
    let a = replace_all(template, "<path>", path);
    let b = replace_all(a.as_str(), "<language>", language);
    replace_all(b.as_str(), "<item>", body)
}

/// The code-snippet prompt around `body`.
pub fn code_prompt_text(path: &str, label: &str, body: &str) -> (r: String)
    ensures
        r@ == code_prompt(path@, label@, body@),
{
    fill_template(
        "The below code snippet is from file '<path>'\n\n```<language>\n<item>\n```",
        path,
        label,
        body,
    )
}

/// The whole-file prompt around `body`.
pub fn file_prompt_text(path: &str, name: &str, body: &str) -> (r: String)
    ensures
        r@ == file_prompt(path@, name@, body@),
{
    fill_template(
        "The below snippet is from file '<path>'\n\n```<language>\n<item>\n```",
        path,
        name,
        body,
    )
}

/// The chunk body: the context texts, one per line, above the item text.
pub fn body_text(contexts: &Vec<String>, item: &str) -> (r: String)
    ensures
        r@ == body_of(views(contexts@), item@),
{
    if contexts.len() == 0 {
        item.to_owned()
    } else {
        let mut r = join_strings(contexts, "\n");
        r.append("\n");
        r.append(item);
        r
    }
}

/// The one chunk that a whole file makes, named after its language.
pub fn whole_file_document(path: &str, language_name: &str, content: &str) -> (r: Document)
    ensures
        r@ == whole_file_view(path@, language_name@, content@),
{
    Document {
        name: language_name.to_owned(),
        range: Range { start: 0, end: content.len() },
        content: file_prompt_text(path, language_name, content),
    }
}

/// The chunks that a sequence of query matches yields, in match order. `label`
/// is the language name as it stands in the prompt.
pub fn chunks_from_matches(
    path: &str,
    label: &str,
    content: &str,
    roles: &CaptureRoles,
    matches: &Vec<Vec<Capture>>,
) -> (r: Vec<Document>)
    ensures
        doc_views(r@) == extract_docs(path@, label@, content@, *roles, match_views(matches@)),
{
    let mut docs: Vec<Document> = Vec::new();
    let mut seen: Vec<(usize, usize)> = Vec::new();
    let mut i: usize = 0;
    while i < matches.len()
        invariant
            i <= matches@.len(),
            ({
                let ex = extract_from(path@, label@, content@, *roles, match_views(matches@).take(i as int));
                &&& doc_views(docs@) == ex.0
                &&& seen@ == ex.1
            }),
        decreases matches@.len() - i,
    {
        assert(match_views(matches@).take(i as int + 1).drop_last() =~= match_views(matches@).take(i as int));
        let (names, item, contexts) = scan_match(content, roles, &matches[i], &mut seen);
        match item {
            Some((Some(text), start, end)) => {
                if names.len() > 0 {
                    let body = body_text(&contexts, text.as_str());
                    let d = Document {
                        name: join_strings(&names, " "),
                        range: Range { start, end },
                        content: code_prompt_text(path, label, body.as_str()),
                    };
                    let ghost before = docs@;
                    docs.push(d);
                    assert(doc_views(docs@) =~= doc_views(before).push(docs@.last()@));
                }
            },
            _ => {},
        }
        let ghost ex = extract_from(path@, label@, content@, *roles, match_views(matches@).take(i as int + 1));
        assert(doc_views(docs@) =~= ex.0);
        i = i + 1;
    }
    assert(match_views(matches@).take(matches@.len() as int) =~= match_views(matches@));
    docs
}

} // verus!

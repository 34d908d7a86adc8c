//! Turning one markdown document into a structured record.
//!
//! The markdown engine lists the document's syntax tree in preorder; the
//! functions here pick the metadata block, the headings and the checkboxes
//! out of that list.

pub mod cb;
pub mod file;
pub mod fm;
pub mod h;

use vstd::prelude::*;
use vstd::string::StringSliceAdditionalSpecFns;
use markdown_it::MarkdownIt;
use markdown_it::parser::inline::Text;
use markdown_it::plugins::cmark::block::heading::ATXHeading;
use markdown_it::plugins::cmark::block::paragraph::Paragraph;
use markdown_it_front_matter::FrontMatter;
use markdown_it_tasklist::TodoCheckbox;
use crate::error::DataStoreError;
use crate::parser::file::FileData;
use crate::parser::fm::FileFrontMatter;

verus! {

#[verifier::external_type_specification]
#[verifier::external_body]
pub struct ExMarkdownIt(MarkdownIt);

/// Relies on markdown_it::MarkdownIt::new: an engine with no rules yet.
pub assume_specification[ MarkdownIt::new ]() -> MarkdownIt;

/// Relies on markdown_it::plugins::cmark::add: adds the CommonMark rules.
pub assume_specification[ markdown_it::plugins::cmark::add ](md: &mut MarkdownIt);

/// Relies on markdown_it_front_matter::add: adds the front-matter block rule.
pub assume_specification[ markdown_it_front_matter::add ](md: &mut MarkdownIt);

/// Relies on markdown_it_tasklist::add: adds the task-list checkbox rule.
pub assume_specification[ markdown_it_tasklist::add ](md: &mut MarkdownIt);

/// What one node of the markdown syntax tree is, as far as this library cares.
#[derive(Debug, Clone, PartialEq, Eq)]
pub enum MdKind {
    /// A front-matter block with its raw payload.
    FrontMatter(String),
    /// A heading with its level.
    Heading(u8),
    /// A task-list checkbox with its state.
    Checkbox(bool),
    /// A paragraph.
    Paragraph,
    /// Plain inline text.
    Text(String),
    /// Anything else.
    Other,
}

/// One node of the syntax tree, with its depth (the document root is 0).
#[derive(Debug, Clone, PartialEq, Eq)]
pub struct MdNode {
    pub depth: u32,
    pub kind: MdKind,
}

/// The syntax tree that the markdown engine makes of a text, in preorder.
pub uninterp spec fn markdown_nodes(text: Seq<char>) -> Seq<MdNode>;

/// The three bytes at `i` encode a whitespace character that takes three
/// bytes in UTF-8: U+1680, U+2000 to U+200A, U+2028, U+2029, U+202F,
/// U+205F or U+3000.
pub open spec fn is_wide_space_at(b: Seq<u8>, i: int) -> bool {
    ||| b[i] == 0xE1 && b[i + 1] == 0x9A && b[i + 2] == 0x80
    ||| b[i] == 0xE2 && b[i + 1] == 0x80 && ((0x80 <= b[i + 2] && b[i + 2] <= 0x8A) || b[i + 2]
        == 0xA8 || b[i + 2] == 0xA9 || b[i + 2] == 0xAF)
    ||| b[i] == 0xE2 && b[i + 1] == 0x81 && b[i + 2] == 0x9F
    ||| b[i] == 0xE3 && b[i + 1] == 0x80 && b[i + 2] == 0x80
}

/// The text holds `[`, a three-byte whitespace character and `]` in a row:
/// a task-list box the task-list rule cannot handle.
pub open spec fn has_wide_space_box(b: Seq<u8>) -> bool {
    exists|i: int|
        0 <= i && i + 5 <= b.len() && b[i] == 0x5B && #[trigger] is_wide_space_at(b, i + 1) && b[i
            + 4] == 0x5D
}

/// Relies on markdown_it::MarkdownIt::parse and Node::walk: the tree is
/// walked in preorder, and each node is listed with its depth. Every
/// `Parser` is built by `Parser::new`, with the same rules, so the list
/// depends on the text alone. The task-list rule drops the first three
/// bytes of a box's text, which panics when the box holds a three-byte
/// space; such texts are left out.
#[verifier::external_body]
fn markdown_nodes_of(parser: &Parser, text: &str) -> (r: Vec<MdNode>)
    requires
        !has_wide_space_box(text.spec_bytes()),
    ensures
        r@ == markdown_nodes(text@),
{
    let mut out = Vec::new();
    parser.engine.parse(text).walk(|n, depth| out.push(MdNode { depth, kind:
        if let Some(t) = n.cast::<Text>() { MdKind::Text(t.content.clone()) }
        else if let Some(h) = n.cast::<ATXHeading>() { MdKind::Heading(h.level) }
        else if let Some(c) = n.cast::<TodoCheckbox>() { MdKind::Checkbox(c.checked) }
        else if let Some(f) = n.cast::<FrontMatter>() { MdKind::FrontMatter(f.content.clone()) }
        else if n.is::<Paragraph>() { MdKind::Paragraph } else { MdKind::Other } }));
    out
}

/// The text of node `i` if it is plain text at the given depth.
pub open spec fn text_at(nodes: Seq<MdNode>, i: int, depth: int) -> Option<Seq<char>> {
    if 0 <= i < nodes.len() && nodes[i].depth == depth {
        match nodes[i].kind {
            MdKind::Text(t) => Some(t@),
            _ => None,
        }
    } else {
        None
    }
}

/// A heading's title: its first child, when that is plain text.
pub open spec fn heading_title(nodes: Seq<MdNode>, i: int) -> Option<Seq<char>> {
    text_at(nodes, i + 1, nodes[i].depth + 1)
}

/// A checkbox's title: the first inline text of its list item, that is the
/// checkbox's next sibling, or the first child of that sibling when it is a
/// paragraph.
pub open spec fn checkbox_title(nodes: Seq<MdNode>, i: int) -> Option<Seq<char>> {
    if i + 1 < nodes.len() && nodes[i + 1].depth == nodes[i].depth
        && nodes[i + 1].kind is Paragraph {
        text_at(nodes, i + 2, nodes[i].depth + 1)
    } else {
        text_at(nodes, i + 1, nodes[i].depth as int)
    }
}

/// The titled headings among the first `n` nodes, in document order.
pub open spec fn headings_in(nodes: Seq<MdNode>, n: int) -> Seq<(Seq<char>, u8)>
    decreases n,
{
    if n <= 0 {
        Seq::empty()
    } else {
        let prev = headings_in(nodes, n - 1);
        match nodes[n - 1].kind {
            MdKind::Heading(level) => match heading_title(nodes, n - 1) {
                Some(t) => prev.push((t, level)),
                None => prev,
            },
            _ => prev,
        }
    }
}

/// The titled checkboxes among the first `n` nodes, in document order.
pub open spec fn checkboxes_in(nodes: Seq<MdNode>, n: int) -> Seq<(Seq<char>, bool)>
    decreases n,
{
    if n <= 0 {
        Seq::empty()
    } else {
        let prev = checkboxes_in(nodes, n - 1);
        match nodes[n - 1].kind {
            MdKind::Checkbox(checked) => match checkbox_title(nodes, n - 1) {
                Some(t) => prev.push((t, checked)),
                None => prev,
            },
            _ => prev,
        }
    }
}

/// The payload of the first front-matter block at or after node `i`.
pub open spec fn front_matter_from(nodes: Seq<MdNode>, i: int) -> Option<Seq<char>>
    decreases nodes.len() - i,
{
    if i < 0 || i >= nodes.len() {
        None
    } else {
        match nodes[i].kind {
            MdKind::FrontMatter(p) => Some(p@),
            _ => front_matter_from(nodes, i + 1),
        }
    }
}

pub open spec fn opt_str_view(o: Option<&String>) -> Option<Seq<char>> {
    match o {
        Some(s) => Some(s@),
        None => None,
    }
}

pub open spec fn opt_string_view(o: Option<String>) -> Option<Seq<char>> {
    match o {
        Some(s) => Some(s@),
        None => None,
    }
}

/// `r` is the parse error of file `fname` with message `msg`.
pub open spec fn is_parse_error<T>(r: Result<T, DataStoreError>, fname: Seq<char>, msg: Seq<char>) -> bool {
    match r {
        Err(DataStoreError::VaultParseError { fname: f, msg: m }) => f@ == fname && m@ == msg,
        _ => false,
    }
}

/// The record a document gives, given what its metadata block decoded to.
pub open spec fn record_matches(
    d: FileData,
    nodes: Seq<MdNode>,
    front_matter: Option<Result<FileFrontMatter, String>>,
) -> bool {
    &&& match front_matter {
        Some(Ok(fm)) => d.front_matter == fm,
        _ => d.front_matter.is_default(),
    }
    &&& d.heading_views() == headings_in(nodes, nodes.len() as int)
    &&& d.checkbox_views() == checkboxes_in(nodes, nodes.len() as int)
}

/// No node is a heading or a checkbox.
pub open spec fn no_headings_or_checkboxes(nodes: Seq<MdNode>) -> bool {
    forall|i: int| 0 <= i < nodes.len() ==> !(#[trigger] nodes[i].kind is Heading) && !(
    nodes[i].kind is Checkbox)
}

proof fn lemma_nothing_extracted(nodes: Seq<MdNode>, n: int)
    requires
        no_headings_or_checkboxes(nodes),
        n <= nodes.len(),
    ensures
        headings_in(nodes, n) == Seq::<(Seq<char>, u8)>::empty(),
        checkboxes_in(nodes, n) == Seq::<(Seq<char>, bool)>::empty(),
    decreases n,
{
    if n > 0 {
        lemma_nothing_extracted(nodes, n - 1);
        assert(!(nodes[n - 1].kind is Heading));
    }
}

/// A document with no front-matter block, no headings and no checkboxes
/// gives the all-default record, and is not an error.
pub proof fn lemma_plain_document_is_default(nodes: Seq<MdNode>, d: FileData)
    requires
        no_headings_or_checkboxes(nodes),
        record_matches(d, nodes, None),
    ensures
        d.is_default(),
{
    lemma_nothing_extracted(nodes, nodes.len() as int);
    assert(d.headings@.len() == d.heading_views().len());
    assert(d.check_boxes@.len() == d.checkbox_views().len());
}

fn text_at_exec(nodes: &Vec<MdNode>, i: usize, depth: u64) -> (r: Option<&String>)
    ensures
        opt_str_view(r) == text_at(nodes@, i as int, depth as int),
{
    if i < nodes.len() && nodes[i].depth as u64 == depth {
        match &nodes[i].kind {
            MdKind::Text(t) => Some(t),
            _ => None,
        }
    } else {
        None
    }
}

fn heading_title_exec(nodes: &Vec<MdNode>, i: usize) -> (r: Option<&String>)
    requires
        i < nodes@.len(),
    ensures
        opt_str_view(r) == heading_title(nodes@, i as int),
{
    let len = nodes.len();
    if i + 1 < len {
        text_at_exec(nodes, i + 1, nodes[i].depth as u64 + 1)
    } else {
        None
    }
}

fn checkbox_title_exec(nodes: &Vec<MdNode>, i: usize) -> (r: Option<&String>)
    requires
        i < nodes@.len(),
    ensures
        opt_str_view(r) == checkbox_title(nodes@, i as int),
{
    let depth = nodes[i].depth as u64;
    let len = nodes.len();
    if i + 1 < len && nodes[i + 1].depth as u64 == depth
        && matches!(nodes[i + 1].kind, MdKind::Paragraph) {
        text_at_exec(nodes, i + 2, depth + 1)
    } else {
        text_at_exec(nodes, i + 1, depth)
    }
}

/// Whether the text holds a task-list box with a three-byte space.
pub fn holds_wide_space_box(text: &str) -> (r: bool)
    ensures
        r == has_wide_space_box(text.spec_bytes()),
{
    let b = text.as_bytes();
    let n = b.len();
    let mut i: usize = 0;
    while i < n
        invariant
            b@ == text.spec_bytes(),
            n == b@.len(),
            i <= n,
            forall|j: int|
                0 <= j < i && j + 5 <= n ==> !(b@[j] == 0x5B && #[trigger] is_wide_space_at(b@, j + 1)
                    && b@[j + 4] == 0x5D),
        decreases n - i,
    {
        if n - i >= 5 && b[i] == 0x5B && b[i + 4] == 0x5D {
            let (c0, c1, c2) = (b[i + 1], b[i + 2], b[i + 3]);
            if (c0 == 0xE1 && c1 == 0x9A && c2 == 0x80) || (c0 == 0xE2 && c1 == 0x80 && ((0x80
                <= c2 && c2 <= 0x8A) || c2 == 0xA8 || c2 == 0xA9 || c2 == 0xAF)) || (c0 == 0xE2
                && c1 == 0x81 && c2 == 0x9F) || (c0 == 0xE3 && c1 == 0x80 && c2 == 0x80) {
                assert(is_wide_space_at(b@, i + 1));
                return true;
            }
        }
        i = i + 1;
    }
    false
}

/// Reads markdown documents into records.
pub struct Parser {
    engine: MarkdownIt,
}

impl Parser {
    /// A parser with the CommonMark, front-matter and task-list rules.
    pub fn new() -> Self {
        let mut engine = MarkdownIt::new();
        markdown_it::plugins::cmark::add(&mut engine);
        markdown_it_front_matter::add(&mut engine);
        markdown_it_tasklist::add(&mut engine);
        Parser { engine }
    }

    /// The syntax tree of the text of file `fname`, in preorder. A text
    /// with a task-list box that holds a three-byte space cannot be read.
    pub fn scan(&self, fname: &str, text: &str) -> (r: Result<Vec<MdNode>, DataStoreError>)
        ensures
            !has_wide_space_box(text.spec_bytes()) ==> (r matches Ok(nodes) && nodes@
                == markdown_nodes(text@)),
            has_wide_space_box(text.spec_bytes()) ==> is_parse_error(
                r,
                fname@,
                "task-list box holds a wide space"@,
            ),
    {
        if holds_wide_space_box(text) {
            Err(
                DataStoreError::VaultParseError {
                    fname: fname.to_owned(),
                    msg: "task-list box holds a wide space".to_owned(),
                },
            )
        } else {
            Ok(markdown_nodes_of(self, text))
        }
    }

    /// The raw payload of the document's front-matter block, if it has one.
    pub fn front_matter_block(nodes: &Vec<MdNode>) -> (r: Option<String>)
        ensures
            match r {
                Some(p) => front_matter_from(nodes@, 0) == Some(p@),
                None => front_matter_from(nodes@, 0) is None,
            },
    {
        let mut i: usize = 0;
        while i < nodes.len()
            invariant
                i <= nodes@.len(),
                front_matter_from(nodes@, 0) == front_matter_from(nodes@, i as int),
            decreases nodes@.len() - i,
        {
            if let MdKind::FrontMatter(p) = &nodes[i].kind {
                return Some(p.clone());
            }
            i = i + 1;
        }
        None
    }

    /// The record of a document whose syntax tree is `nodes` and whose
    /// front-matter block, if any, decoded to `front_matter` (`Err` with the
    /// decoder's message when it did not decode). A block that did not decode
    /// rejects the whole document.
    pub fn assemble(
        fname: &str,
        nodes: &Vec<MdNode>,
        front_matter: Option<Result<FileFrontMatter, String>>,
    ) -> (r: Result<FileData, DataStoreError>)
        ensures
            match front_matter {
                Some(Err(msg)) => is_parse_error(r, fname@, msg@),
                _ => r matches Ok(d) && record_matches(d, nodes@, front_matter),
            },
    {
        let mut data = FileData::new();
        let n = nodes.len();
        for i in 0..n
            invariant
                n == nodes@.len(),
                data.front_matter.is_default(),
                data.heading_views() == headings_in(nodes@, i as int),
                data.checkbox_views() == checkboxes_in(nodes@, i as int),
        {
            match &nodes[i].kind {
                MdKind::Heading(level) => {
                    if let Some(t) = heading_title_exec(nodes, i) {
                        data.add_heading(t.as_str(), *level);
                    }
                },
                MdKind::Checkbox(checked) => {
                    if let Some(t) = checkbox_title_exec(nodes, i) {
                        data.add_checkbox(t.as_str(), Some(*checked));
                    }
                },
                _ => {},
            }
        }
        match front_matter {
            Some(Err(msg)) => Err(DataStoreError::VaultParseError { fname: fname.to_owned(), msg }),
            Some(Ok(fm)) => {
                data.add_front_matter(fm);
                Ok(data)
            },
            None => Ok(data),
        }
    }
}

} // verus!

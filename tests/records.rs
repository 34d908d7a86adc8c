use mddb::legacy::{legacy_root_id, recover_root_id};
use mddb::{CheckboxData, DataStoreError, FileData, FileFrontMatter, HeadingData, MdKind, MdNode, Parser};

fn record_of(text: &str) -> FileData {
    let parser = Parser::new();
    let nodes = parser.scan("note.md", text).unwrap();
    assert!(Parser::front_matter_block(&nodes).is_none());
    Parser::assemble("note.md", &nodes, None).unwrap()
}

#[test]
fn new_checkbox_with_title() {
    let title = "A test checkbox with default value";
    let cb = CheckboxData::new(title, None);
    assert_eq!(title, cb.title);
    assert_eq!(false, cb.checked);
}

#[test]
fn checkbox_state_changes() {
    let mut cb = CheckboxData::new("task", Some(true));
    assert!(cb.checked);
    cb.uncheck();
    assert!(!cb.checked);
    cb.check();
    assert!(cb.checked);
    cb.set_title("renamed");
    assert_eq!("renamed", cb.title);
    assert!(cb.checked);
    assert_eq!(CheckboxData::default(), CheckboxData::new("", None));
}

#[test]
fn heading_written_as_markdown() {
    assert_eq!("## Title", HeadingData::new("Title", 2).to_string());
    assert_eq!("# A", HeadingData::new("A", 1).to_string());
    assert_eq!(" plain", HeadingData::new("plain", 0).to_string());
}

#[test]
fn file_data_collects_in_order() {
    let mut fd = FileData::new();
    fd.add_heading("One", 1);
    fd.add_heading("Two", 3);
    fd.add_checkbox("first", None);
    fd.add_checkbox("second", Some(true));
    assert_eq!(vec![HeadingData::new("One", 1), HeadingData::new("Two", 3)], fd.headings);
    assert_eq!(
        vec![CheckboxData::new("first", Some(false)), CheckboxData::new("second", Some(true))],
        fd.check_boxes
    );
    let fm = FileFrontMatter { id: "abc".to_string(), ..FileFrontMatter::default() };
    fd.add_front_matter(fm.clone());
    assert_eq!(fm, fd.front_matter);
}

#[test]
fn plain_document_gives_default_record() {
    let fd = record_of("Just a paragraph of text.\n\nAnd another one.\n");
    assert_eq!(FileData::default(), fd);
    assert_eq!(FileData::new(), fd);
}

#[test]
fn empty_document_gives_default_record() {
    assert_eq!(FileData::default(), record_of(""));
}

#[test]
fn headings_in_document_order() {
    let fd = record_of("## Second level\n\ntext\n\n# Top\n\n### Third *emph*\n");
    assert_eq!(
        vec![
            HeadingData::new("Second level", 2),
            HeadingData::new("Top", 1),
            HeadingData::new("Third ", 3),
        ],
        fd.headings
    );
}

#[test]
fn heading_not_starting_with_text_is_skipped() {
    let fd = record_of("# *emphasis first*\n\n# Kept\n");
    assert_eq!(vec![HeadingData::new("Kept", 1)], fd.headings);
}

#[test]
fn checkboxes_in_tight_and_loose_lists() {
    let fd = record_of("- [ ] open task\n- [x] done task\n- plain item\n");
    assert_eq!(2, fd.check_boxes.len());
    assert_eq!(false, fd.check_boxes[0].checked);
    assert_eq!(true, fd.check_boxes[1].checked);
    assert!(fd.check_boxes[0].title.ends_with("open task"));
    assert!(fd.check_boxes[1].title.ends_with("done task"));
    let loose = record_of("- [X] first\n\n- [ ] second\n");
    assert_eq!(2, loose.check_boxes.len());
    assert!(loose.check_boxes[0].checked);
    assert!(loose.check_boxes[1].title.ends_with("second"));
}

#[test]
fn front_matter_block_is_found() {
    let parser = Parser::new();
    let nodes = parser.scan("a.md", "---\nid: abc\ntitle: T\n---\n# Heading\n").unwrap();
    assert_eq!(Some("id: abc\ntitle: T\n".to_string()), Parser::front_matter_block(&nodes));
    let fm = FileFrontMatter { id: "abc".to_string(), title: "T".to_string(), ..FileFrontMatter::default() };
    let fd = Parser::assemble("a.md", &nodes, Some(Ok(fm.clone()))).unwrap();
    assert_eq!(fm, fd.front_matter);
    assert_eq!(vec![HeadingData::new("Heading", 1)], fd.headings);
}

#[test]
fn undecodable_front_matter_rejects_document() {
    let parser = Parser::new();
    let nodes = parser.scan("bad.md", "---\n: : :\n---\n# Heading\n").unwrap();
    let r = Parser::assemble("bad.md", &nodes, Some(Err("invalid".to_string())));
    assert_eq!(
        Err(DataStoreError::VaultParseError { fname: "bad.md".to_string(), msg: "invalid".to_string() }),
        r
    );
}

#[test]
fn assemble_reads_node_list() {
    let nodes = vec![
        MdNode { depth: 0, kind: MdKind::Other },
        MdNode { depth: 1, kind: MdKind::Heading(2) },
        MdNode { depth: 2, kind: MdKind::Text("Title".to_string()) },
        MdNode { depth: 1, kind: MdKind::Heading(1) },
        MdNode { depth: 1, kind: MdKind::Text("not a child".to_string()) },
        MdNode { depth: 2, kind: MdKind::Checkbox(true) },
        MdNode { depth: 2, kind: MdKind::Paragraph },
        MdNode { depth: 3, kind: MdKind::Text("loose".to_string()) },
        MdNode { depth: 2, kind: MdKind::Checkbox(false) },
        MdNode { depth: 2, kind: MdKind::Text("tight".to_string()) },
    ];
    let fd = Parser::assemble("n.md", &nodes, None).unwrap();
    assert_eq!(vec![HeadingData::new("Title", 2)], fd.headings);
    assert_eq!(
        vec![CheckboxData::new("loose", Some(true)), CheckboxData::new("tight", Some(false))],
        fd.check_boxes
    );
}

#[test]
fn legacy_id_line_is_found() {
    assert_eq!(Some("abc_123".to_string()), legacy_root_id("# Root\nid = abc_123\nid = later\n"));
    assert_eq!(Some("X".to_string()), legacy_root_id("id = X"));
    assert_eq!(None, legacy_root_id("id = two words\nid =x\n id = y\nid = \n"));
    assert_eq!(None, legacy_root_id(""));
}

#[test]
fn legacy_id_used_only_without_declared_id() {
    let text = "text\nid = legacy1\n";
    let fd = recover_root_id(text, Ok(FileData::new())).unwrap();
    assert_eq!("legacy1", fd.front_matter.id);
    let declared = FileFrontMatter { id: "declared".to_string(), ..FileFrontMatter::default() };
    let mut with_id = FileData::new();
    with_id.add_front_matter(declared);
    let fd = recover_root_id(text, Ok(with_id.clone())).unwrap();
    assert_eq!(with_id, fd);
    let fd = recover_root_id("no id here\n", Ok(FileData::new())).unwrap();
    assert_eq!(FileData::new(), fd);
    assert_eq!(Err(DataStoreError::AstError), recover_root_id(text, Err(DataStoreError::AstError)));
}

#[test]
fn wide_space_in_task_box_is_a_parse_error() {
    let parser = Parser::new();
    let r = parser.scan("w.md", "- [\u{3000}] task\n");
    assert_eq!(
        Err(DataStoreError::VaultParseError {
            fname: "w.md".to_string(),
            msg: "task-list box holds a wide space".to_string(),
        }),
        r
    );
    assert!(parser.scan("w.md", "text [\u{2009}] more\n").is_err());
    assert!(mddb::parser::holds_wide_space_box("a [\u{205F}] b"));
    assert!(!mddb::parser::holds_wide_space_box("- [\u{4E2D}] task\n"));
    let nodes = parser.scan("n.md", "- [\u{00A0}] task\n").unwrap();
    let fd = Parser::assemble("n.md", &nodes, None).unwrap();
    assert_eq!(1, fd.check_boxes.len());
}

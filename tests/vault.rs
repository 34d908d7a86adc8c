use std::collections::BTreeSet;

use mddb::ident::{generate, random_seed, resolve, ID_LEN};
use mddb::vault::{glob_pattern, is_inside, last_segment_of, Skip, SkippedFile};
use mddb::{DataStoreError, FileData, FileFrontMatter, SourceFile, Vault};

fn doc(id: &str) -> FileData {
    let mut fd = FileData::new();
    fd.add_front_matter(FileFrontMatter { id: id.to_string(), ..FileFrontMatter::default() });
    fd
}

fn file(name: &str, id: &str) -> SourceFile {
    SourceFile { file_name: name.to_string(), record: Ok(doc(id)) }
}

fn broken(name: &str) -> SourceFile {
    SourceFile {
        file_name: name.to_string(),
        record: Err(DataStoreError::VaultParseError {
            fname: name.to_string(),
            msg: "front matter did not decode".to_string(),
        }),
    }
}

fn ids(v: &Vault) -> BTreeSet<String> {
    v.get_tree().get_nodes().iter().map(|n| n.get_node_id().unwrap()).collect()
}

fn is_id_char(c: char) -> bool {
    c.is_ascii_digit() || c.is_ascii_lowercase()
}

#[test]
fn new_vault_with_no_params() {
    let v = Vault::open("/tmp/Temp", None, None, None, None, vec![file("a.md", "A")]).unwrap();
    assert_eq!("/tmp/Temp", v.base);
    assert_eq!("*.md", v.pattern);
    assert_eq!("Temp", v.name);
    assert_eq!(glob::MatchOptions::new(), v.options);
}

#[test]
fn new_vault_with_params() {
    let v = Vault::open("/tmp/Temp", Some("*.md"), Some("default"), None, None, vec![file("a.md", "A")])
        .unwrap();
    assert_eq!("/tmp/Temp", v.base);
    assert_eq!("default", v.name);
}

#[test]
fn vault_defaults_and_given_options() {
    let v = Vault::new("/tmp/Temp", None, None, None);
    assert_eq!("*.md", v.pattern);
    assert_eq!(glob::MatchOptions::new(), v.options);
    assert_eq!(0, v.node_count());
    let v = Vault::new("/tmp/notes/", Some("*.txt"), Some(""), None);
    assert_eq!("notes", v.name);
    assert_eq!("*.txt", v.pattern);
    let opts = glob::MatchOptions { case_sensitive: false, require_literal_separator: true, require_literal_leading_dot: true };
    let v = Vault::open("/tmp/x", None, None, Some(opts), Some(Ok(doc("R"))), vec![]).unwrap();
    assert_eq!(opts, v.options);
}

#[test]
fn last_segment_ignores_trailing_separators() {
    assert_eq!("b", last_segment_of("/a/b"));
    assert_eq!("b", last_segment_of("/a/b//"));
    assert_eq!("vault", last_segment_of("vault"));
    assert_eq!("", last_segment_of("/"));
    assert_eq!("", last_segment_of(""));
}

#[test]
fn get_root_id_with_root_file() {
    let id = String::from("7csf5wyep1i96o3x35oalg5");
    let v = Vault::open("/data/get_root_id_with_root_file", None, None, None, Some(Ok(doc(&id))), vec![])
        .unwrap();
    assert_eq!(Some(id), v.root_id());
    let root = v.get_tree().get_root_node().unwrap();
    assert_eq!("7csf5wyep1i96o3x35oalg5", root.get_node_id().unwrap());
}

#[test]
fn root_file_id_takes_precedence() {
    let files = vec![file("a.md", "A1"), file("b.md", "")];
    let v = Vault::open("/data/vault", None, None, None, Some(Ok(doc("R1"))), files).unwrap();
    assert_eq!(Some("R1".to_string()), v.root_id());
    assert_eq!(3, v.node_count());
    assert_eq!("vault", v.name);
}

#[test]
fn root_synthesized_without_root_file() {
    let v = Vault::open("/data/vault", None, None, None, None, vec![file("a.md", "A1")]).unwrap();
    let root = v.root_id().unwrap();
    assert_eq!(ID_LEN, root.len());
    assert!(root.chars().all(is_id_char));
    assert_ne!("A1", root);
    let expected: BTreeSet<String> = [root.clone(), "A1".to_string()].into_iter().collect();
    assert_eq!(expected, ids(&v));
    let root_node = v.get_tree().get_root_node().unwrap();
    assert_eq!(Some(FileData::default()), root_node.get_value().unwrap());
}

#[test]
fn empty_vault_is_rejected() {
    let r = Vault::open("/data/empty", None, None, None, None, vec![]);
    assert_eq!(Err(DataStoreError::EmptyVaultError { path: "/data/empty".to_string() }), r.map(|_| ()));
    let r = Vault::open("/data/empty", None, None, None, None, vec![broken("x.md"), file("root.md", "R")]);
    assert_eq!(Err(DataStoreError::EmptyVaultError { path: "/data/empty".to_string() }), r.map(|_| ()));
}

#[test]
fn root_file_alone_is_enough() {
    let mut v = Vault::new("/data/only_root", None, None, None);
    assert_eq!(Ok(1), v.load(Some(Ok(doc("R"))), vec![file("root.md", "R")]));
    assert_eq!(1, v.node_count());
    assert!(v.skipped.is_empty());
}

#[test]
fn unparsable_root_file_fails_load() {
    let r = Vault::open("/data/bad_root", None, None, None, Some(Err(DataStoreError::AstError)), vec![]);
    assert_eq!(Err(DataStoreError::AstError), r.map(|_| ()));
}

#[test]
fn parse_failures_are_skipped() {
    let files = vec![file("a.md", "A"), broken("bad.md"), file("b.md", "B"), file("c.md", "")];
    let mut v = Vault::new("/data/mixed", None, None, None);
    assert_eq!(Ok(3), v.load(None, files));
    let files = vec![file("a.md", "A"), broken("bad.md"), file("b.md", "B"), file("c.md", "")];
    assert_eq!(Ok(4), v.load(Some(Ok(doc("R"))), files));
    assert_eq!(4, v.node_count());
    assert_eq!(1, v.skipped.len());
    assert_eq!("bad.md", v.skipped[0].file_name);
    assert!(matches!(v.skipped[0].reason, Skip::Unparsed(DataStoreError::VaultParseError { .. })));
}

#[test]
fn repeated_identifiers_are_skipped() {
    let files = vec![file("a.md", "A"), file("b.md", "A"), file("c.md", "R"), file("d.md", "D")];
    let mut v = Vault::new("/data/dups", None, None, None);
    assert_eq!(Ok(3), v.load(Some(Ok(doc("R"))), files));
    let expected: BTreeSet<String> = ["R", "A", "D"].iter().map(|s| s.to_string()).collect();
    assert_eq!(expected, ids(&v));
    let values: Vec<_> = v.get_tree().get_nodes().iter().map(|n| n.get_value().unwrap()).collect();
    assert_eq!(Some(doc("A")), values[1]);
    assert_eq!(
        vec![
            SkippedFile { file_name: "b.md".to_string(), reason: Skip::RepeatedId("A".to_string()) },
            SkippedFile { file_name: "c.md".to_string(), reason: Skip::RepeatedId("R".to_string()) },
        ],
        v.skipped
    );
}

#[test]
fn every_document_hangs_under_the_root() {
    let files = vec![file("a.md", "A"), file("b.md", ""), file("c.md", "")];
    let v = Vault::open("/data/flat", None, None, None, Some(Ok(doc("R"))), files).unwrap();
    let tree = v.get_tree();
    assert_eq!(4, tree.get_nodes().len());
    for n in tree.get_nodes().iter() {
        let id = n.get_node_id().unwrap();
        if id == "R" {
            assert_eq!(None, n.get_parent_id().unwrap());
        } else {
            assert_eq!(Some("R".to_string()), n.get_parent_id().unwrap());
        }
    }
    assert_eq!(4, ids(&v).len());
}

#[test]
fn reload_gives_same_tree() {
    let files = || vec![file("a.md", "A"), broken("x.md"), file("b.md", "B")];
    let mut v = Vault::open("/data/reload", None, None, None, Some(Ok(doc("R"))), files()).unwrap();
    let first = ids(&v);
    let first_count = v.node_count();
    assert_eq!(Ok(3), v.load(Some(Ok(doc("R"))), files()));
    assert_eq!(first, ids(&v));
    assert_eq!(first_count, v.node_count());
}

#[test]
fn generated_identifiers_differ_between_loads() {
    let mut v = Vault::new("/data/gen", None, None, None);
    assert_eq!(Ok(1), v.load(None, vec![file("a.md", "")]));
    let first = ids(&v);
    assert_eq!(Ok(1), v.load(None, vec![file("a.md", "")]));
    assert_eq!(2, ids(&v).len());
    assert_ne!(first, ids(&v));
}

#[test]
fn load_with_fixed_seeds() {
    let mut v = Vault::new("/data/seeded", None, None, None);
    let seeds = vec!["aaa".to_string(), "rrr".to_string(), "rrr".to_string()];
    let files = vec![file("a.md", ""), file("b.md", "rrr"), file("c.md", "")];
    assert_eq!(Ok(2), v.load_with(None, files, &"rrr".to_string(), &seeds));
    let expected: BTreeSet<String> = ["rrr", "aaa", "rrr0"].iter().map(|s| s.to_string()).collect();
    assert_eq!(expected, ids(&v));
    assert_eq!(Some("rrr".to_string()), v.root_id());
}

#[test]
fn generate_appends_zeros_until_free() {
    let mut v = Vault::new("/data/ids", None, None, None);
    let files = vec![file("a.md", "x"), file("b.md", "x0")];
    assert_eq!(Ok(3), v.load(Some(Ok(doc("y"))), files));
    assert_eq!("x00", generate(v.get_tree(), &"x".to_string()));
    assert_eq!("z", generate(v.get_tree(), &"z".to_string()));
    assert_eq!("decl", resolve(v.get_tree(), &"decl".to_string(), &"x".to_string()));
    assert_eq!("x00", resolve(v.get_tree(), &String::new(), &"x".to_string()));
}

#[test]
fn random_seeds_are_printable() {
    let a = random_seed();
    let b = random_seed();
    assert_eq!(ID_LEN, a.chars().count());
    assert!(a.chars().all(is_id_char));
    assert!(b.chars().all(is_id_char));
    assert_ne!(a, b);
}

#[test]
fn vault_relative_path() {
    let v = Vault::new("/home/user/workspace", None, Some("data"), None);
    assert_eq!(Some("test/data".to_string()), v.rel_path("/home/user/workspace/test/data"));
    assert_eq!(Some("notes/a.md".to_string()), v.rel_path("/home/user/workspace/notes/a.md"));
    assert_eq!(Some(String::new()), v.rel_path("/home/user/workspace"));
}

#[test]
fn relative_path_outside_base_is_none() {
    let v = Vault::new("/home/user/workspace", None, None, None);
    assert_eq!(None, v.rel_path("/home/user/other/a.md"));
    assert_eq!(None, v.rel_path("/home/user/workspace2/a.md"));
    assert_eq!(None, v.rel_path("/home/user/workspace/../other"));
    assert_eq!(None, v.rel_path("/home/user"));
    assert!(is_inside("/a/b/c", "/a/b"));
    assert!(!is_inside("/a/bc", "/a/b"));
    assert!(is_inside("/a/b..c", "/a"));
}

#[test]
fn glob_pattern_joins_directory_and_pattern() {
    assert_eq!("/data/vault/*.md", glob_pattern("/data/vault", "*.md"));
    let v = Vault::new("/data/vault", Some("*.txt"), None, None);
    assert_eq!(Ok("/data/vault/*.txt".to_string()), v.convert_to_glob());
}

#[test]
fn root_file_name_matches_exactly() {
    assert!(Vault::is_root_file(&"root.md".to_string()));
    assert!(!Vault::is_root_file(&"Root.md".to_string()));
    assert!(!Vault::is_root_file(&"root.md.bak".to_string()));
}

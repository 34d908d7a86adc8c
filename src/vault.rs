//! The vault: a directory of markdown documents loaded into one tree.
//!
//! Loading installs a root node (from the reserved root file, or a synthetic
//! one) and attaches every other parsed document as a child of the root.
//! Reading the files is left to the caller, who hands over what each file
//! parsed to.

use vstd::prelude::*;
use glob::MatchOptions;
use tree_ds::prelude::Tree;
use crate::error::DataStoreError;
use crate::ident::{doc_id, fresh_id, generate, generated_shape, is_seed, ID_LEN, lemma_fresh_id_is_free, lemma_fresh_id_shape, random_seed, resolve};
use crate::parser::file::FileData;
use crate::parser::opt_string_view;
use crate::tree::{add_node, contains_id, entry_ids, has_id, new_tree, node_count, root_of, tree_entries, TreeEntry};

verus! {

#[verifier::external_type_specification]
pub struct ExMatchOptions(MatchOptions);

/// The matcher's default options: case-sensitive, and neither separators
/// nor leading dots need a literal match.
pub open spec fn is_default_options(o: MatchOptions) -> bool {
    o.case_sensitive && !o.require_literal_separator && !o.require_literal_leading_dot
}

/// Relies on glob::MatchOptions::new: case-sensitive, no literal separator,
/// no literal leading dot.
pub assume_specification[ MatchOptions::new ]() -> (r: MatchOptions)
    ensures
        is_default_options(r),
;

/// The options a vault uses: the given ones, else the matcher's defaults.
pub open spec fn vault_options(options: Option<MatchOptions>, chosen: MatchOptions) -> bool {
    match options {
        Some(o) => chosen == o,
        None => is_default_options(chosen),
    }
}

/// The name of the reserved root file.
pub open spec fn is_root_file_name(name: Seq<char>) -> bool {
    name == "root.md"@
}

/// One candidate file of the vault and what parsing it gave.
pub struct SourceFile {
    /// The file's name, without its directory.
    pub file_name: String,
    pub record: Result<FileData, DataStoreError>,
}

/// Why a candidate file was left out of the tree.
#[derive(Debug, Clone, PartialEq, Eq)]
pub enum Skip {
    /// The file did not parse; the parser's error.
    Unparsed(DataStoreError),
    /// A node already carries the file's identifier.
    RepeatedId(String),
}

/// A candidate file that was left out of the tree, and why.
#[derive(Debug, Clone, PartialEq, Eq)]
pub struct SkippedFile {
    pub file_name: String,
    pub reason: Skip,
}

/// `Skip` with the identifier as a character sequence.
pub enum SkipView {
    Unparsed(DataStoreError),
    RepeatedId(Seq<char>),
}

impl View for SkippedFile {
    type V = (Seq<char>, SkipView);

    open spec fn view(&self) -> (Seq<char>, SkipView) {
        (
            self.file_name@,
            match self.reason {
                Skip::Unparsed(e) => SkipView::Unparsed(e),
                Skip::RepeatedId(id) => SkipView::RepeatedId(id@),
            },
        )
    }
}

/// The skipped files as (file name, reason) pairs.
pub open spec fn skip_views(skipped: Seq<SkippedFile>) -> Seq<(Seq<char>, SkipView)> {
    skipped.map_values(|f: SkippedFile| f@)
}

/// The tree after attaching `files`, in order, under the root `root` of the
/// tree `start`: a file named like the root file, or that did not parse, is
/// skipped; so is one whose identifier some node already carries. File `i`
/// draws its generated identifier, if it needs one, from `seeds[i]`.
pub open spec fn attach(
    start: Seq<TreeEntry>,
    root: Seq<char>,
    files: Seq<SourceFile>,
    seeds: Seq<Seq<char>>,
) -> Seq<TreeEntry>
    decreases files.len(),
{
    if files.len() == 0 {
        start
    } else {
        let prev = attach(start, root, files.drop_last(), seeds);
        let f = files.last();
        if is_root_file_name(f.file_name@) {
            prev
        } else {
            match f.record {
                Ok(fd) => {
                    let id = doc_id(fd.front_matter.id@, prev, seeds[files.len() - 1]);
                    if has_id(prev, id) {
                        prev
                    } else {
                        prev.push((id, Some(root), Some(fd)))
                    }
                },
                Err(_) => prev,
            }
        }
    }
}

/// The files that attaching `files` leaves out, in order, with the reason:
/// the parse error, or the identifier that a node already carries. Files
/// named like the root file are not candidates and are not listed.
pub open spec fn skipped_in(
    start: Seq<TreeEntry>,
    root: Seq<char>,
    files: Seq<SourceFile>,
    seeds: Seq<Seq<char>>,
) -> Seq<(Seq<char>, SkipView)>
    decreases files.len(),
{
    if files.len() == 0 {
        Seq::empty()
    } else {
        let before = skipped_in(start, root, files.drop_last(), seeds);
        let prev = attach(start, root, files.drop_last(), seeds);
        let f = files.last();
        if is_root_file_name(f.file_name@) {
            before
        } else {
            match f.record {
                Ok(fd) => {
                    let id = doc_id(fd.front_matter.id@, prev, seeds[files.len() - 1]);
                    if has_id(prev, id) {
                        before.push((f.file_name@, SkipView::RepeatedId(id)))
                    } else {
                        before
                    }
                },
                Err(e) => before.push((f.file_name@, SkipView::Unparsed(e))),
            }
        }
    }
}

/// `entries` is the tree that loading gives, for the root file's outcome
/// `root` (`None` when there is no root file), the candidate `files`, and
/// the seeds drawn for generated identifiers.
pub open spec fn loaded_from(
    entries: Seq<TreeEntry>,
    root: Option<Result<FileData, DataStoreError>>,
    files: Seq<SourceFile>,
    root_seed: Seq<char>,
    seeds: Seq<Seq<char>>,
) -> bool {
    &&& entries.len() >= 1
    &&& entries[0].1 is None
    &&& match root {
        Some(Ok(fd)) => entries[0].0 == doc_id(fd.front_matter.id@, Seq::empty(), root_seed)
            && entries[0].2 == Some(fd),
        _ => entries[0].0 == fresh_id(Seq::empty(), root_seed) && (entries[0].2 matches Some(d)
            && d.is_default()),
    }
    &&& entries == attach(entries.take(1), entries[0].0, files, seeds)
}

/// Every seed is a random identifier seed.
pub open spec fn all_seeds(seeds: Seq<Seq<char>>) -> bool {
    forall|i: int| 0 <= i < seeds.len() ==> is_seed(#[trigger] seeds[i])
}

/// `entries` is the tree that loading gives for some draw of seeds.
pub open spec fn loaded(
    entries: Seq<TreeEntry>,
    root: Option<Result<FileData, DataStoreError>>,
    files: Seq<SourceFile>,
) -> bool {
    exists|root_seed: Seq<char>, seeds: Seq<Seq<char>>|
        is_seed(root_seed) && seeds.len() == files.len() && all_seeds(seeds) && #[trigger] loaded_from(
            entries,
            root,
            files,
            root_seed,
            seeds,
        )
}

/// `entries` and `skipped` are the tree and the list of skipped files that
/// loading gives for some draw of seeds.
pub open spec fn loaded_with_skips(
    entries: Seq<TreeEntry>,
    skipped: Seq<(Seq<char>, SkipView)>,
    root: Option<Result<FileData, DataStoreError>>,
    files: Seq<SourceFile>,
) -> bool {
    exists|root_seed: Seq<char>, seeds: Seq<Seq<char>>|
        is_seed(root_seed) && seeds.len() == files.len() && all_seeds(seeds) && #[trigger] loaded_from(
            entries,
            root,
            files,
            root_seed,
            seeds,
        ) && skipped == skipped_in(entries.take(1), entries[0].0, files, seeds)
}

/// How many documents a loaded tree holds: every node, but a synthetic root.
pub open spec fn document_count(
    entries: Seq<TreeEntry>,
    root: Option<Result<FileData, DataStoreError>>,
) -> int {
    if root is None {
        entries.len() - 1
    } else {
        entries.len() as int
    }
}

/// The seeds as character sequences.
pub open spec fn seed_views(seeds: Seq<String>) -> Seq<Seq<char>> {
    seeds.map_values(|s: String| s@)
}

/// No candidate file can be attached: each is named like the root file or
/// did not parse.
pub open spec fn nothing_loadable(files: Seq<SourceFile>) -> bool {
    forall|i: int|
        0 <= i < files.len() ==> is_root_file_name(#[trigger] files[i].file_name@)
            || files[i].record is Err
}

/// Every document declares its identifier: the root file and each file that
/// parsed.
pub open spec fn all_declared(
    root: Option<Result<FileData, DataStoreError>>,
    files: Seq<SourceFile>,
) -> bool {
    &&& root matches Some(Ok(fd)) && fd.front_matter.id@.len() > 0
    &&& forall|i: int|
        0 <= i < files.len() ==> (#[trigger] files[i].record matches Ok(fd) ==> fd.front_matter.id@.len()
            > 0)
}

/// No two nodes carry the same identifier.
pub open spec fn distinct_ids(entries: Seq<TreeEntry>) -> bool {
    forall|i: int, j: int| 0 <= i < j < entries.len() ==> entries[i].0 != entries[j].0
}

/// Every node after the first hangs directly under `root`.
pub open spec fn children_of(entries: Seq<TreeEntry>, from: int, root: Seq<char>) -> bool {
    forall|i: int| from <= i < entries.len() ==> (#[trigger] entries[i]).1 == Some(root)
}

/// The pattern a vault uses: the given one, else `*.md`.
pub open spec fn vault_pattern(pattern: Option<&str>) -> Seq<char> {
    match pattern {
        Some(p) => p@,
        None => "*.md"@,
    }
}

/// The name a vault gets: the given one unless it is absent or empty, else
/// the last segment of its directory.
pub open spec fn vault_name(name: Option<&str>, base: Seq<char>) -> Seq<char> {
    match name {
        Some(n) => if n@.len() > 0 {
            n@
        } else {
            last_segment(base)
        },
        None => last_segment(base),
    }
}

/// Attaching keeps the nodes already there, hangs every new node under the
/// root, and never repeats an identifier.
proof fn lemma_attach_shape(
    start: Seq<TreeEntry>,
    root: Seq<char>,
    files: Seq<SourceFile>,
    seeds: Seq<Seq<char>>,
)
    ensures
        attach(start, root, files, seeds).len() >= start.len(),
        attach(start, root, files, seeds).take(start.len() as int) == start,
        children_of(attach(start, root, files, seeds), start.len() as int, root),
        distinct_ids(start) ==> distinct_ids(attach(start, root, files, seeds)),
    decreases files.len(),
{
    if files.len() > 0 {
        let prev = attach(start, root, files.drop_last(), seeds);
        lemma_attach_shape(start, root, files.drop_last(), seeds);
        let cur = attach(start, root, files, seeds);
        if cur != prev {
            assert(cur.take(start.len() as int) =~= prev.take(start.len() as int));
            assert forall|i: int, j: int|
                distinct_ids(prev) && 0 <= i < j < cur.len() implies cur[i].0 != cur[j].0 by {
                if j == cur.len() - 1 {
                    assert(cur[i] == prev[i]);
                }
            }
        }
    }
}

/// With no file that can be attached, attaching changes nothing.
proof fn lemma_attach_nothing(
    start: Seq<TreeEntry>,
    root: Seq<char>,
    files: Seq<SourceFile>,
    seeds: Seq<Seq<char>>,
)
    requires
        nothing_loadable(files),
    ensures
        attach(start, root, files, seeds) == start,
    decreases files.len(),
{
    if files.len() > 0 {
        let rest = files.drop_last();
        assert(nothing_loadable(rest)) by {
            assert forall|i: int| 0 <= i < rest.len() implies is_root_file_name(
                #[trigger] rest[i].file_name@,
            ) || rest[i].record is Err by {
                assert(rest[i] == files[i]);
            }
        }
        lemma_attach_nothing(start, root, rest, seeds);
        assert(files.last() == files[files.len() - 1]);
    }
}

/// When every file declares its identifier, the seeds make no difference.
proof fn lemma_attach_declared(
    start: Seq<TreeEntry>,
    root: Seq<char>,
    files: Seq<SourceFile>,
    seeds1: Seq<Seq<char>>,
    seeds2: Seq<Seq<char>>,
)
    requires
        forall|i: int|
            0 <= i < files.len() ==> (#[trigger] files[i].record matches Ok(fd)
                ==> fd.front_matter.id@.len() > 0),
    ensures
        attach(start, root, files, seeds1) == attach(start, root, files, seeds2),
    decreases files.len(),
{
    if files.len() > 0 {
        let rest = files.drop_last();
        assert forall|i: int| 0 <= i < rest.len() implies (#[trigger] rest[i].record matches Ok(
            fd,
        ) ==> fd.front_matter.id@.len() > 0) by {
            assert(rest[i] == files[i]);
        }
        lemma_attach_declared(start, root, rest, seeds1, seeds2);
        assert(files.last() == files[files.len() - 1]);
    }
}

/// No two nodes of a loaded tree share an identifier, and every node but
/// the root is a direct child of the root.
pub proof fn lemma_loaded_ids_unique(
    entries: Seq<TreeEntry>,
    root: Option<Result<FileData, DataStoreError>>,
    files: Seq<SourceFile>,
)
    requires
        loaded(entries, root, files),
    ensures
        distinct_ids(entries),
        root_of(entries) == Some(entries[0].0),
        children_of(entries, 1, entries[0].0),
{
    let (rs, seeds) = choose|rs: Seq<char>, seeds: Seq<Seq<char>>|
        is_seed(rs) && seeds.len() == files.len() && #[trigger] loaded_from(
            entries,
            root,
            files,
            rs,
            seeds,
        );
    lemma_attach_shape(entries.take(1), entries[0].0, files, seeds);
    assert(root_of(entries) == Some(entries[0].0));
}

/// Loading twice from the same root file and files, when every document
/// declares its identifier, gives the same tree: the same number of
/// documents and the same identifiers.
pub proof fn lemma_rebuild_same_ids(
    first: Seq<TreeEntry>,
    second: Seq<TreeEntry>,
    root: Option<Result<FileData, DataStoreError>>,
    files: Seq<SourceFile>,
)
    requires
        loaded(first, root, files),
        loaded(second, root, files),
        all_declared(root, files),
    ensures
        document_count(first, root) == document_count(second, root),
        entry_ids(first).to_set() == entry_ids(second).to_set(),
        first == second,
{
    let (rs1, seeds1) = choose|rs: Seq<char>, seeds: Seq<Seq<char>>|
        is_seed(rs) && seeds.len() == files.len() && #[trigger] loaded_from(
            first,
            root,
            files,
            rs,
            seeds,
        );
    let (rs2, seeds2) = choose|rs: Seq<char>, seeds: Seq<Seq<char>>|
        is_seed(rs) && seeds.len() == files.len() && #[trigger] loaded_from(
            second,
            root,
            files,
            rs,
            seeds,
        );
    assert(first.take(1) =~= second.take(1)) by {
        assert(first[0] == second[0]);
    }
    lemma_attach_declared(first.take(1), first[0].0, files, seeds1, seeds2);
}

/// The path of `path` relative to `base`, as pathdiff computes it.
pub uninterp spec fn path_diff(path: Seq<char>, base: Seq<char>) -> Option<Seq<char>>;

/// Relies on pathdiff::diff_paths: the relative path from `base` to `path`,
/// which depends on the two paths alone. It is `None` only when `base` has a
/// `..` segment, or `path` is relative and `base` absolute; so it is there
/// when both start with `/` and `base` has no `..` segment.
#[verifier::external_body]
fn diff_paths(path: &str, base: &str) -> (r: Option<String>)
    ensures
        opt_string_view(r) == path_diff(path@, base@),
        path@.len() > 0 && path@[0] == '/' && base@.len() > 0 && base@[0] == '/' && (forall|i: int|
            !parent_segment_at(base@, i)) ==> r is Some,
{
    pathdiff::diff_paths(path, base).and_then(|p| p.to_str().map(|s| s.to_owned()))
}

/// The path has no `$` and does not start with `~`: nothing to expand.
pub open spec fn plain_path(p: Seq<char>) -> bool {
    &&& forall|i: int| 0 <= i < p.len() ==> p[i] != '$'
    &&& !(p.len() > 0 && p[0] == '~')
}

/// Relies on shellexpand::full: `~` and environment variables expanded, or
/// `None` when a variable is not set. The outcome depends on the
/// environment; only a path with nothing to expand is known to come back
/// as it was.
#[verifier::external_body]
fn expand_path(path: &str) -> (r: Option<String>)
    ensures
        plain_path(path@) ==> opt_string_view(r) == Some(path@),
{
    shellexpand::full(path).ok().map(|c| c.into_owned())
}

/// `..` stands as a whole segment of the path at position `i`.
pub open spec fn parent_segment_at(p: Seq<char>, i: int) -> bool {
    &&& 0 <= i && i + 2 <= p.len()
    &&& p[i] == '.' && p[i + 1] == '.'
    &&& (i == 0 || p[i - 1] == '/')
    &&& (i + 2 == p.len() || p[i + 2] == '/')
}

/// `path` is the directory `base` or lies below it, and does not step out
/// of it through a `..` segment.
pub open spec fn inside_dir(path: Seq<char>, base: Seq<char>) -> bool {
    &&& 0 < base.len() <= path.len()
    &&& path.take(base.len() as int) == base
    &&& (path.len() == base.len() || base.last() == '/' || path[base.len() as int] == '/')
    &&& forall|i: int| !parent_segment_at(path, i)
}

fn has_parent_segment(p: &str) -> (r: bool)
    ensures
        r == exists|i: int| parent_segment_at(p@, i),
{
    let n = p.unicode_len();
    let mut i: usize = 0;
    while i < n
        invariant
            i <= n,
            n == p@.len(),
            forall|j: int| 0 <= j < i ==> !parent_segment_at(p@, j),
        decreases n - i,
    {
        if i + 1 < n && p.get_char(i) == '.' && p.get_char(i + 1) == '.' && (i == 0 || p.get_char(i - 1)
            == '/') && (i + 2 == n || p.get_char(i + 2) == '/') {
            assert(parent_segment_at(p@, i as int));
            return true;
        }
        i = i + 1;
    }
    assert forall|j: int| !parent_segment_at(p@, j) by {
        if 0 <= j < i {
        }
    }
    false
}

/// Whether `path` is the directory `base` or lies below it, without a `..`
/// segment.
pub fn is_inside(path: &str, base: &str) -> (r: bool)
    ensures
        r == inside_dir(path@, base@),
{
    let n = path.unicode_len();
    let m = base.unicode_len();
    if m == 0 || m > n {
        return false;
    }
    let mut i: usize = 0;
    while i < m
        invariant
            m <= n,
            n == path@.len(),
            m == base@.len(),
            forall|k: int| 0 <= k < i ==> path@[k] == base@[k],
        decreases m - i,
    {
        if path.get_char(i) != base.get_char(i) {
            assert(path@.take(m as int)[i as int] != base@[i as int]);
            return false;
        }
        i = i + 1;
    }
    assert(path@.take(m as int) =~= base@);
    if !(n == m || base.get_char(m - 1) == '/' || path.get_char(m) == '/') {
        return false;
    }
    !has_parent_segment(path)
}

/// The glob pattern for the files `pattern` matches in directory `dir`.
pub fn glob_pattern(dir: &str, pattern: &str) -> (r: String)
    ensures
        r@ == dir@ + seq!['/'] + pattern@,
{
    let mut g = dir.to_owned();
    g.append("/");
    proof {
        reveal_strlit("/");
    }
    g.append(pattern);
    g
}

/// Attaching a longer list of files keeps what attaching its first `m`
/// files gave.
proof fn lemma_attach_prefix(
    start: Seq<TreeEntry>,
    root: Seq<char>,
    files: Seq<SourceFile>,
    seeds: Seq<Seq<char>>,
    m: int,
)
    requires
        0 <= m <= files.len(),
    ensures
        attach(start, root, files.take(m), seeds).len() <= attach(start, root, files, seeds).len(),
        attach(start, root, files, seeds).take(attach(start, root, files.take(m), seeds).len() as int)
            == attach(start, root, files.take(m), seeds),
    decreases files.len(),
{
    if m < files.len() {
        lemma_attach_prefix(start, root, files.drop_last(), seeds, m);
        assert(files.drop_last().take(m) =~= files.take(m));
        let shorter = attach(start, root, files.take(m), seeds);
        let prev = attach(start, root, files.drop_last(), seeds);
        let cur = attach(start, root, files, seeds);
        assert(cur.take(shorter.len() as int) =~= prev.take(shorter.len() as int));
    } else {
        assert(files.take(m) =~= files);
    }
}

/// Every file that parses and declares no identifier is loaded: it gets a
/// generated identifier, which no other node carries, and hangs under the
/// root. So a vault with such a file is never empty.
pub proof fn lemma_undeclared_documents_loaded(
    entries: Seq<TreeEntry>,
    root: Option<Result<FileData, DataStoreError>>,
    files: Seq<SourceFile>,
    i: int,
)
    requires
        loaded(entries, root, files),
        0 <= i < files.len(),
        !is_root_file_name(files[i].file_name@),
        files[i].record matches Ok(fd) && fd.front_matter.id@.len() == 0,
    ensures
        files[i].record matches Ok(fd) ==> exists|j: int|
            1 <= j < entries.len() && #[trigger] entries[j].2 == Some(fd),
        document_count(entries, root) > 0,
{
    let (rs, seeds) = choose|rs: Seq<char>, seeds: Seq<Seq<char>>|
        is_seed(rs) && seeds.len() == files.len() && #[trigger] loaded_from(
            entries,
            root,
            files,
            rs,
            seeds,
        );
    let start = entries.take(1);
    let r = entries[0].0;
    let before = attach(start, r, files.take(i), seeds);
    let after = attach(start, r, files.take(i + 1), seeds);
    assert(files.take(i + 1).drop_last() =~= files.take(i));
    assert(files.take(i + 1).last() == files[i]);
    let fd = files[i].record->Ok_0;
    lemma_fresh_id_is_free(before, seeds[i]);
    lemma_attach_shape(start, r, files.take(i), seeds);
    assert(after == before.push((fresh_id(before, seeds[i]), Some(r), Some(fd))));
    lemma_attach_prefix(start, r, files, seeds, i + 1);
    let j = before.len() as int;
    assert(entries.take(after.len() as int)[j] == after[j]);
    assert(entries[j].2 == Some(fd));
}

/// Without a root file, the root is synthetic: it has the default record
/// and a generated identifier of at least `ID_LEN` characters.
pub proof fn lemma_synthesized_root(
    entries: Seq<TreeEntry>,
    files: Seq<SourceFile>,
)
    requires
        loaded(entries, None, files),
    ensures
        root_of(entries) == Some(entries[0].0),
        entries[0].0.len() >= ID_LEN,
        entries[0].2 matches Some(d) && d.is_default(),
{
    let (rs, seeds) = choose|rs: Seq<char>, seeds: Seq<Seq<char>>|
        is_seed(rs) && seeds.len() == files.len() && #[trigger] loaded_from(
            entries,
            None,
            files,
            rs,
            seeds,
        );
    lemma_fresh_id_is_free(Seq::empty(), rs);
}

/// A candidate file that is attached unless its identifier is taken: not
/// named like the root file, and parsed.
pub open spec fn loadable(f: SourceFile) -> bool {
    !is_root_file_name(f.file_name@) && f.record is Ok
}

/// The identifier a parsed file declares.
pub open spec fn declared_id(f: SourceFile) -> Seq<char> {
    f.record->Ok_0.front_matter.id@
}

/// How many of the files are loadable.
pub open spec fn loadable_count(files: Seq<SourceFile>) -> nat
    decreases files.len(),
{
    if files.len() == 0 {
        0
    } else {
        loadable_count(files.drop_last()) + if loadable(files.last()) {
            1nat
        } else {
            0nat
        }
    }
}

/// The files that did not parse, in order, with their errors.
pub open spec fn failures_in(files: Seq<SourceFile>) -> Seq<(Seq<char>, SkipView)>
    decreases files.len(),
{
    if files.len() == 0 {
        Seq::empty()
    } else {
        let before = failures_in(files.drop_last());
        let f = files.last();
        if !is_root_file_name(f.file_name@) && f.record is Err {
            before.push((f.file_name@, SkipView::Unparsed(f.record->Err_0)))
        } else {
            before
        }
    }
}

/// Each loadable file declares no identifier, or one that no other loadable
/// file declares, that is not the root's, and that a generated identifier
/// cannot be.
pub open spec fn plainly_identified(files: Seq<SourceFile>, root: Seq<char>) -> bool {
    forall|i: int|
        0 <= i < files.len() && loadable(#[trigger] files[i]) ==> declared_id(files[i]).len() == 0
            || (declared_id(files[i]) != root && !generated_shape(declared_id(files[i])) && forall|
            j: int|
            0 <= j < files.len() && j != i && loadable(#[trigger] files[j]) ==> declared_id(files[j])
                != declared_id(files[i]))
}

proof fn lemma_attach_all(
    start: Seq<TreeEntry>,
    root: Seq<char>,
    files: Seq<SourceFile>,
    seeds: Seq<Seq<char>>,
    m: int,
)
    requires
        start.len() == 1,
        start[0].0 == root,
        plainly_identified(files, root),
        seeds.len() == files.len(),
        all_seeds(seeds),
        0 <= m <= files.len(),
    ensures
        attach(start, root, files.take(m), seeds).len() == 1 + loadable_count(files.take(m)),
        attach(start, root, files.take(m), seeds)[0] == start[0],
        forall|j: int|
            1 <= j < attach(start, root, files.take(m), seeds).len() ==> generated_shape(
                (#[trigger] attach(start, root, files.take(m), seeds)[j]).0,
            ) || exists|k: int|
                0 <= k < m && loadable(files[k]) && declared_id(files[k]).len() > 0
                    && declared_id(files[k]) == attach(start, root, files.take(m), seeds)[j].0,
        skipped_in(start, root, files.take(m), seeds) == failures_in(files.take(m)),
    decreases m,
{
    if m == 0 {
        assert(files.take(0) =~= Seq::<SourceFile>::empty());
    } else {
        lemma_attach_all(start, root, files, seeds, m - 1);
        let cur = files.take(m);
        assert(cur.drop_last() =~= files.take(m - 1));
        assert(cur.last() == files[m - 1]);
        let prev = attach(start, root, files.take(m - 1), seeds);
        let f = files[m - 1];
        if loadable(f) {
            let fd = f.record->Ok_0;
            let id = doc_id(fd.front_matter.id@, prev, seeds[m - 1]);
            if declared_id(f).len() == 0 {
                lemma_fresh_id_is_free(prev, seeds[m - 1]);
                lemma_fresh_id_shape(prev, seeds[m - 1]);
            } else {
                assert(!has_id(prev, id)) by {
                    if has_id(prev, id) {
                        let j = choose|j: int| 0 <= j < prev.len() && (#[trigger] prev[j]).0 == id;
                        if j >= 1 {
                            if !generated_shape(prev[j].0) {
                                let k = choose|k: int|
                                    0 <= k < m - 1 && loadable(files[k]) && declared_id(files[k]).len()
                                        > 0 && declared_id(files[k]) == prev[j].0;
                                assert(loadable(files[k]));
                            }
                        }
                    }
                }
            }
            let next = attach(start, root, cur, seeds);
            assert(next == prev.push((id, Some(root), Some(fd))));
            assert forall|j: int| 1 <= j < next.len() implies generated_shape(
                (#[trigger] next[j]).0,
            ) || exists|k: int|
                0 <= k < m && loadable(files[k]) && declared_id(files[k]).len() > 0
                    && declared_id(files[k]) == next[j].0 by {
                if j < prev.len() {
                    assert(next[j] == prev[j]);
                    if !generated_shape(prev[j].0) {
                        let k = choose|k: int|
                            0 <= k < m - 1 && loadable(files[k]) && declared_id(files[k]).len() > 0
                                && declared_id(files[k]) == prev[j].0;
                        assert(0 <= k < m);
                    }
                } else if declared_id(f).len() > 0 {
                    assert(0 <= m - 1 < m && loadable(files[m - 1]));
                }
            }
        }
    }
}

/// Files that do not parse are skipped and reported, and stop nothing: when
/// the parsed files declare no identifier or plain, distinct ones other
/// than the root's, every parsed file becomes a document, and the skipped
/// list is exactly the files that did not parse, with their errors.
pub proof fn lemma_parse_failures_skipped(
    entries: Seq<TreeEntry>,
    skipped: Seq<(Seq<char>, SkipView)>,
    root: Option<Result<FileData, DataStoreError>>,
    files: Seq<SourceFile>,
)
    requires
        loaded_with_skips(entries, skipped, root, files),
        plainly_identified(files, entries[0].0),
    ensures
        document_count(entries, root) == loadable_count(files) + if root is None {
            0int
        } else {
            1int
        },
        children_of(entries, 1, entries[0].0),
        skipped == failures_in(files),
{
    let (rs, seeds) = choose|rs: Seq<char>, seeds: Seq<Seq<char>>|
        is_seed(rs) && seeds.len() == files.len() && all_seeds(seeds) && #[trigger] loaded_from(
            entries,
            root,
            files,
            rs,
            seeds,
        ) && skipped == skipped_in(entries.take(1), entries[0].0, files, seeds);
    lemma_attach_all(entries.take(1), entries[0].0, files, seeds, files.len() as int);
    assert(files.take(files.len() as int) =~= files);
    lemma_attach_shape(entries.take(1), entries[0].0, files, seeds);
}

/// Without a root file, a vault whose first parsed file does not declare the
/// synthetic root's own identifier holds at least one document, so opening
/// it succeeds.
pub proof fn lemma_first_parsed_file_loaded(
    entries: Seq<TreeEntry>,
    files: Seq<SourceFile>,
    i: int,
)
    requires
        loaded(entries, None, files),
        0 <= i < files.len(),
        nothing_loadable(files.take(i)),
        loadable(files[i]),
        declared_id(files[i]) != entries[0].0,
    ensures
        document_count(entries, None) > 0,
{
    let (rs, seeds) = choose|rs: Seq<char>, seeds: Seq<Seq<char>>|
        is_seed(rs) && seeds.len() == files.len() && all_seeds(seeds) && #[trigger] loaded_from(
            entries,
            None,
            files,
            rs,
            seeds,
        );
    let start = entries.take(1);
    let r = entries[0].0;
    lemma_attach_nothing(start, r, files.take(i), seeds);
    assert(files.take(i + 1).drop_last() =~= files.take(i));
    assert(files.take(i + 1).last() == files[i]);
    lemma_fresh_id_is_free(start, seeds[i]);
    assert(!has_id(start, declared_id(files[i]))) by {
        if has_id(start, declared_id(files[i])) {
            let j = choose|j: int| 0 <= j < start.len() && (#[trigger] start[j]).0 == declared_id(
                files[i],
            );
            assert(start[j] == entries[0]);
        }
    }
    assert(attach(start, r, files.take(i + 1), seeds).len() == 2);
    lemma_attach_prefix(start, r, files, seeds, i + 1);
}

/// A directory of markdown documents and the tree they were loaded into.
#[derive(Debug)]
pub struct Vault {
    pub name: String,
    pub base: String,
    pub pattern: String,
    pub options: MatchOptions,
    pub tree: Tree<String, FileData>,
    /// The candidate files the last load left out.
    pub skipped: Vec<SkippedFile>,
}

/// The path with its trailing separators removed.
pub open spec fn trim_separators(p: Seq<char>) -> Seq<char>
    decreases p.len(),
{
    if p.len() > 0 && p.last() == '/' {
        trim_separators(p.drop_last())
    } else {
        p
    }
}

/// What follows the last separator of the path.
pub open spec fn after_last_separator(p: Seq<char>) -> Seq<char>
    decreases p.len(),
{
    if p.len() == 0 || p.last() == '/' {
        Seq::empty()
    } else {
        after_last_separator(p.drop_last()).push(p.last())
    }
}

/// The last segment of a path, trailing separators ignored.
pub open spec fn last_segment(p: Seq<char>) -> Seq<char> {
    after_last_separator(trim_separators(p))
}

/// The last segment of a path, trailing separators ignored.
pub fn last_segment_of(path: &str) -> (r: String)
    ensures
        r@ == last_segment(path@),
{
    let n = path.unicode_len();
    let mut end = n;
    assert(path@.subrange(0, n as int) =~= path@);
    while end > 0 && path.get_char(end - 1) == '/'
        invariant
            end <= n,
            n == path@.len(),
            trim_separators(path@) == trim_separators(path@.subrange(0, end as int)),
        decreases end,
    {
        assert(path@.subrange(0, end as int).drop_last() =~= path@.subrange(0, end - 1));
        end = end - 1;
    }
    assert(trim_separators(path@) == path@.subrange(0, end as int));
    let mut start = end;
    while start > 0 && path.get_char(start - 1) != '/'
        invariant
            start <= end <= n,
            n == path@.len(),
            after_last_separator(path@.subrange(0, end as int)) == after_last_separator(
                path@.subrange(0, start as int),
            ) + path@.subrange(start as int, end as int),
        decreases start,
    {
        let ghost s = start as int;
        assert(path@.subrange(0, s).drop_last() =~= path@.subrange(0, s - 1));
        assert(path@.subrange(s - 1, end as int) =~= seq![path@[s - 1]] + path@.subrange(
            s,
            end as int,
        ));
        assert(after_last_separator(path@.subrange(0, s)) == after_last_separator(
            path@.subrange(0, s - 1),
        ).push(path@[s - 1]));
        assert(after_last_separator(path@.subrange(0, s - 1)).push(path@[s - 1]) + path@.subrange(
            s,
            end as int,
        ) =~= after_last_separator(path@.subrange(0, s - 1)) + path@.subrange(s - 1, end as int));
        start = start - 1;
    }
    assert(after_last_separator(path@.subrange(0, start as int)) =~= Seq::<char>::empty());
    assert(after_last_separator(path@.subrange(0, end as int)) =~= path@.subrange(
        start as int,
        end as int,
    ));
    path.substring_char(start, end).to_owned()
}

impl Vault {
    /// The vault's tree, as its list of nodes.
    pub open spec fn entries(&self) -> Seq<TreeEntry> {
        tree_entries(self.tree)
    }

    /// A vault over the directory `base`, with nothing loaded yet. The
    /// pattern defaults to `*.md`; a name that is absent or empty becomes the
    /// last segment of `base`.
    pub fn new(
        base: &str,
        pattern: Option<&str>,
        name: Option<&str>,
        options: Option<MatchOptions>,
    ) -> (r: Vault)
        ensures
            r.base@ == base@,
            r.pattern@ == vault_pattern(pattern),
            r.name@ == vault_name(name, base@),
            vault_options(options, r.options),
            r.entries() == Seq::<TreeEntry>::empty(),
            r.skipped@.len() == 0,
    {
        let pattern = match pattern {
            Some(p) => p.to_owned(),
            None => "*.md".to_owned(),
        };
        let name = match name {
            Some(n) => if n.is_empty() {
                last_segment_of(base)
            } else {
                n.to_owned()
            },
            None => last_segment_of(base),
        };
        let options = match options {
            Some(o) => o,
            None => MatchOptions::new(),
        };
        let tree = new_tree(name.as_str());
        Vault { name, base: base.to_owned(), pattern, options, tree, skipped: Vec::new() }
    }

    /// Whether a candidate file is the reserved root file, matched by name.
    pub fn is_root_file(file_name: &String) -> (r: bool)
        ensures
            r == is_root_file_name(file_name@),
    {
        let root_name = "root.md".to_owned();
        *file_name == root_name
    }

    /// Rebuilds the tree: the previous tree is dropped, the root is installed
    /// from `root` (the root file's parse outcome, `None` when there is no
    /// root file) or synthesized, and every file of `files` is attached under
    /// it. Generated identifiers come from `root_seed` and `seeds`. Returns
    /// how many documents were loaded, and lists the files left out in
    /// `skipped`; a root file that did not parse fails the whole load.
    pub fn load_with(
        &mut self,
        root: Option<Result<FileData, DataStoreError>>,
        files: Vec<SourceFile>,
        root_seed: &String,
        seeds: &Vec<String>,
    ) -> (r: Result<usize, DataStoreError>)
        requires
            seeds@.len() == files@.len(),
        ensures
            final(self).name == old(self).name,
            final(self).base == old(self).base,
            final(self).pattern == old(self).pattern,
            final(self).options == old(self).options,
            match root {
                Some(Err(_)) => r matches Err(DataStoreError::AstError) && final(self).entries()
                    == Seq::<TreeEntry>::empty() && final(self).skipped@.len() == 0,
                _ => r matches Ok(count) && loaded_from(
                    final(self).entries(),
                    root,
                    files@,
                    root_seed@,
                    seed_views(seeds@),
                ) && count == document_count(final(self).entries(), root) && skip_views(
                    final(self).skipped@,
                ) == skipped_in(
                    final(self).entries().take(1),
                    final(self).entries()[0].0,
                    files@,
                    seed_views(seeds@),
                ),
            },
    {
        self.tree = new_tree(self.name.as_str());
        self.skipped = Vec::new();
        let ghost all_files = files@;
        let ghost seeds_v = seed_views(seeds@);
        let (root_id, root_from_file) = match root {
            Some(Err(_)) => {
                return Err(DataStoreError::AstError);
            },
            Some(Ok(fd)) => {
                let id = resolve(&self.tree, &fd.front_matter.id, root_seed);
                let added = add_node(&mut self.tree, id.clone(), fd, None);
                assert(added);
                (id, true)
            },
            None => {
                let fd = FileData::new();
                let id = generate(&self.tree, root_seed);
                let added = add_node(&mut self.tree, id.clone(), fd, None);
                assert(added);
                (id, false)
            },
        };
        let ghost start = tree_entries(self.tree);
        assert(attach(start, root_id@, all_files.subrange(0, 0), seeds_v) == start);
        assert(skip_views(self.skipped@) =~= skipped_in(start, root_id@, all_files.subrange(0, 0), seeds_v));
        let mut rest = files;
        let n = rest.len();
        let mut i: usize = 0;
        while i < n
            invariant
                self.name == old(self).name,
                self.base == old(self).base,
                self.pattern == old(self).pattern,
                self.options == old(self).options,
                i <= n,
                n == all_files.len(),
                seeds@.len() == n,
                seeds_v == seed_views(seeds@),
                rest@ == all_files.subrange(i as int, n as int),
                start.len() == 1,
                start[0].0 == root_id@,
                tree_entries(self.tree).len() >= 1,
                tree_entries(self.tree)[0] == start[0],
                tree_entries(self.tree) == attach(
                    start,
                    root_id@,
                    all_files.subrange(0, i as int),
                    seeds_v,
                ),
                skip_views(self.skipped@) == skipped_in(
                    start,
                    root_id@,
                    all_files.subrange(0, i as int),
                    seeds_v,
                ),
            decreases n - i,
        {
            let ghost prev = tree_entries(self.tree);
            let ghost prev_skipped = self.skipped@;
            let f = rest.remove(0);
            assert(f == all_files[i as int]);
            assert(all_files.subrange(0, i + 1).drop_last() =~= all_files.subrange(0, i as int));
            let SourceFile { file_name, record } = f;
            if !Vault::is_root_file(&file_name) {
                match record {
                    Ok(fd) => {
                        let id = resolve(&self.tree, &fd.front_matter.id, &seeds[i]);
                        if contains_id(&self.tree, &id) {
                            self.skipped.push(SkippedFile { file_name, reason: Skip::RepeatedId(id) });
                        } else {
                            assert(has_id(prev, root_id@)) by {
                                assert(prev[0].0 == root_id@);
                            }
                            let added = add_node(&mut self.tree, id, fd, Some(&root_id));
                            assert(added);
                        }
                    },
                    Err(e) => {
                        self.skipped.push(SkippedFile { file_name, reason: Skip::Unparsed(e) });
                    },
                }
            }
            assert(skip_views(self.skipped@) =~= skipped_in(
                start,
                root_id@,
                all_files.subrange(0, i + 1),
                seeds_v,
            ));
            i = i + 1;
            assert(rest@ =~= all_files.subrange(i as int, n as int));
        }
        assert(all_files.subrange(0, n as int) =~= all_files);
        assert(tree_entries(self.tree).take(1) =~= start);
        let total = node_count(&self.tree);
        if root_from_file {
            Ok(total)
        } else {
            Ok(total - 1)
        }
    }

    /// Rebuilds the tree as `load_with` does, with freshly drawn random
    /// seeds for generated identifiers.
    pub fn load(
        &mut self,
        root: Option<Result<FileData, DataStoreError>>,
        files: Vec<SourceFile>,
    ) -> (r: Result<usize, DataStoreError>)
        ensures
            final(self).name == old(self).name,
            final(self).base == old(self).base,
            final(self).pattern == old(self).pattern,
            final(self).options == old(self).options,
            match root {
                Some(Err(_)) => r matches Err(DataStoreError::AstError) && final(self).entries()
                    == Seq::<TreeEntry>::empty() && final(self).skipped@.len() == 0,
                _ => r matches Ok(count) && loaded(final(self).entries(), root, files@)
                    && loaded_with_skips(
                    final(self).entries(),
                    skip_views(final(self).skipped@),
                    root,
                    files@,
                ) && final(self).entries().len() >= 1 && count == document_count(
                    final(self).entries(),
                    root,
                ),
            },
    {
        let root_seed = random_seed();
        let n = files.len();
        let mut seeds: Vec<String> = Vec::new();
        for k in 0..n
            invariant
                seeds@.len() == k,
                all_seeds(seed_views(seeds@)),
        {
            let seed = random_seed();
            let ghost before = seeds@;
            seeds.push(seed);
            assert(seed_views(seeds@) =~= seed_views(before).push(seed@));
        }
        let ghost all_files = files@;
        let ghost root_v = root;
        let r = self.load_with(root, files, &root_seed, &seeds);
        proof {
            if !(root_v matches Some(Err(_))) {
                assert(loaded_from(
                    self.entries(),
                    root_v,
                    all_files,
                    root_seed@,
                    seed_views(seeds@),
                ));
            }
        }
        r
    }

    /// Opens a vault over the directory `base` and loads it (see `new` and
    /// `load`). A vault with no document loaded, counting a root file but
    /// not a synthetic root, is rejected as empty.
    pub fn open(
        base: &str,
        pattern: Option<&str>,
        name: Option<&str>,
        options: Option<MatchOptions>,
        root: Option<Result<FileData, DataStoreError>>,
        files: Vec<SourceFile>,
    ) -> (r: Result<Vault, DataStoreError>)
        ensures
            match root {
                Some(Err(_)) => r matches Err(DataStoreError::AstError),
                _ => match r {
                    Ok(v) => {
                        &&& v.base@ == base@
                        &&& v.pattern@ == vault_pattern(pattern)
                        &&& v.name@ == vault_name(name, base@)
                        &&& vault_options(options, v.options)
                        &&& loaded(v.entries(), root, files@)
                        &&& loaded_with_skips(v.entries(), skip_views(v.skipped@), root, files@)
                        &&& document_count(v.entries(), root) > 0
                    },
                    Err(e) => {
                        &&& e matches DataStoreError::EmptyVaultError { path } && path@ == base@
                        &&& exists|entries: Seq<TreeEntry>|
                            #[trigger] loaded(entries, root, files@) && document_count(entries, root)
                                == 0
                    },
                },
            },
            root matches Some(Ok(_)) ==> r is Ok,
            root is None && nothing_loadable(files@) ==> r matches Err(
                DataStoreError::EmptyVaultError { .. },
            ),
    {
        let mut v = Vault::new(base, pattern, name, options);
        let ghost all_files = files@;
        let ghost root_v = root;
        match v.load(root, files) {
            Ok(count) => {
                proof {
                    if root_v is None && nothing_loadable(all_files) {
                        let (rs, seeds) = choose|rs: Seq<char>, seeds: Seq<Seq<char>>|
                            is_seed(rs) && seeds.len() == all_files.len() && #[trigger] loaded_from(
                                v.entries(),
                                root_v,
                                all_files,
                                rs,
                                seeds,
                            );
                        let e = v.entries();
                        lemma_attach_nothing(e.take(1), e[0].0, all_files, seeds);
                        assert(e.len() == 1);
                    }
                }
                if count > 0 {
                    Ok(v)
                } else {
                    Err(DataStoreError::EmptyVaultError { path: base.to_owned() })
                }
            },
            Err(e) => Err(e),
        }
    }
    /// The glob pattern of the vault's candidate files: the base directory,
    /// with `~` and environment variables expanded, joined with the pattern.
    /// An expansion that fails makes the vault unreadable as empty.
    pub fn convert_to_glob(&self) -> (r: Result<String, DataStoreError>)
        ensures
            match r {
                Ok(g) => exists|dir: Seq<char>| g@ == dir + seq!['/'] + self.pattern@,
                Err(e) => e matches DataStoreError::EmptyVaultError { path } && path@
                    == self.base@,
            },
            plain_path(self.base@) ==> (r matches Ok(g) && g@ == self.base@ + seq!['/']
                + self.pattern@),
    {
        match expand_path(self.base.as_str()) {
            Some(dir) => Ok(glob_pattern(dir.as_str(), self.pattern.as_str())),
            None => Err(DataStoreError::EmptyVaultError { path: self.base.clone() }),
        }
    }

    /// The path of `path` relative to the vault's base directory, or `None`
    /// when it does not lie inside that directory. For an absolute base
    /// directory, a path inside it always has a relative path.
    pub fn rel_path(&self, path: &str) -> (r: Option<String>)
        ensures
            opt_string_view(r) == if inside_dir(path@, self.base@) {
                path_diff(path@, self.base@)
            } else {
                None
            },
            inside_dir(path@, self.base@) && self.base@[0] == '/' ==> r is Some,
    {
        if is_inside(path, self.base.as_str()) {
            proof {
                let (p, b) = (path@, self.base@);
                assert(p[0] == p.take(b.len() as int)[0]);
                assert forall|i: int| !parent_segment_at(b, i) by {
                    if parent_segment_at(b, i) {
                        assert(p[i] == p.take(b.len() as int)[i]);
                        assert(p[i + 1] == p.take(b.len() as int)[i + 1]);
                        if i > 0 {
                            assert(p[i - 1] == p.take(b.len() as int)[i - 1]);
                        }
                        if i + 2 < b.len() {
                            assert(p[i + 2] == p.take(b.len() as int)[i + 2]);
                        }
                        assert(parent_segment_at(p, i));
                    }
                }
            }
            diff_paths(path, self.base.as_str())
        } else {
            None
        }
    }

    /// The identifier of the tree's root node, if the tree has one.
    pub fn root_id(&self) -> (r: Option<String>)
        ensures
            opt_string_view(r) == root_of(self.entries()),
    {
        crate::tree::root_id(&self.tree)
    }

    /// How many nodes the tree holds, the root included.
    pub fn node_count(&self) -> (r: usize)
        ensures
            r == self.entries().len(),
    {
        node_count(&self.tree)
    }

    pub fn get_tree(&self) -> (r: &Tree<String, FileData>)
        ensures
            *r == self.tree,
    {
        &self.tree
    }
}

} // verus!

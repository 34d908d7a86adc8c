//! The legacy way a root file declares its identifier: a line of the form
//! `id = <word characters>` in the file's text. It is used only when the
//! front matter declares no identifier.

use vstd::prelude::*;
use crate::error::DataStoreError;
use crate::parser::file::FileData;

verus! {

/// A letter, a digit or an underscore.
pub open spec fn is_word_char(c: char) -> bool {
    ('a' <= c && c <= 'z') || ('A' <= c && c <= 'Z') || ('0' <= c && c <= '9') || c == '_'
}

/// The identifier a line declares, if it reads `id = ` followed by one or
/// more word characters and nothing else.
pub open spec fn legacy_id_of_line(line: Seq<char>) -> Option<Seq<char>> {
    if line.len() > 5 && line.take(5) == "id = "@ && forall|i: int|
        5 <= i < line.len() ==> is_word_char(#[trigger] line[i]) {
        Some(line.skip(5))
    } else {
        None
    }
}

/// `text[s..e]` is a whole line of the text.
pub open spec fn is_line(text: Seq<char>, s: int, e: int) -> bool {
    &&& 0 <= s <= e <= text.len()
    &&& (s == 0 || text[s - 1] == '\n')
    &&& (e == text.len() || text[e] == '\n')
    &&& forall|k: int| s <= k < e ==> text[k] != '\n'
}

/// The identifier declared by the first legacy line of the text.
pub open spec fn is_first_legacy_id(text: Seq<char>, s: int, e: int, id: Seq<char>) -> bool {
    &&& is_line(text, s, e)
    &&& legacy_id_of_line(text.subrange(s, e)) == Some(id)
    &&& forall|s2: int, e2: int|
        #![trigger is_line(text, s2, e2)]
        s2 < s && is_line(text, s2, e2) ==> legacy_id_of_line(text.subrange(s2, e2)) is None
}

/// `id` is declared by the first legacy line of the text.
pub open spec fn first_legacy_id_is(text: Seq<char>, id: Seq<char>) -> bool {
    exists|s: int, e: int| #[trigger] is_first_legacy_id(text, s, e, id)
}

/// No line of the text is a legacy identifier line.
pub open spec fn no_legacy_id(text: Seq<char>) -> bool {
    forall|s: int, e: int|
        #![trigger is_line(text, s, e)]
        is_line(text, s, e) ==> legacy_id_of_line(text.subrange(s, e)) is None
}

fn is_word(c: char) -> (r: bool)
    ensures
        r == is_word_char(c),
{
    ('a' <= c && c <= 'z') || ('A' <= c && c <= 'Z') || ('0' <= c && c <= '9') || c == '_'
}

/// Whether `text[s..e]` is a legacy identifier line.
fn line_declares_id(text: &str, s: usize, e: usize) -> (r: bool)
    requires
        s <= e <= text@.len(),
    ensures
        r == legacy_id_of_line(text@.subrange(s as int, e as int)) is Some,
{
    let ghost line = text@.subrange(s as int, e as int);
    proof {
        reveal_strlit("id = ");
    }
    if e - s <= 5 {
        return false;
    }
    if !(text.get_char(s) == 'i' && text.get_char(s + 1) == 'd' && text.get_char(s + 2) == ' '
        && text.get_char(s + 3) == '=' && text.get_char(s + 4) == ' ') {
        assert(line.take(5) != "id = "@) by {
            if line.take(5) == "id = "@ {
                assert(line.take(5)[0] == 'i' && line.take(5)[1] == 'd' && line.take(5)[2] == ' '
                    && line.take(5)[3] == '=' && line.take(5)[4] == ' ');
            }
        }
        return false;
    }
    assert(line.take(5) =~= "id = "@);
    let mut k = s + 5;
    while k < e
        invariant
            s + 5 <= k <= e,
            e <= text@.len(),
            line == text@.subrange(s as int, e as int),
            forall|i: int| 5 <= i < k - s ==> is_word_char(#[trigger] line[i]),
        decreases e - k,
    {
        if !is_word(text.get_char(k)) {
            assert(!is_word_char(line[k - s]));
            return false;
        }
        k = k + 1;
    }
    true
}

/// The identifier declared by the first legacy `id = ...` line of the text.
pub fn legacy_root_id(text: &str) -> (r: Option<String>)
    ensures
        r is None ==> no_legacy_id(text@),
        r matches Some(id) ==> first_legacy_id_is(text@, id@),
{
    let n = text.unicode_len();
    let mut s: usize = 0;
    loop
        invariant
            n == text@.len(),
            s <= n,
            s == 0 || text@[s - 1] == '\n',
            forall|s2: int, e2: int|
                #![trigger is_line(text@, s2, e2)]
                s2 < s && is_line(text@, s2, e2) ==> legacy_id_of_line(text@.subrange(s2, e2)) is None,
        decreases n - s,
    {
        let mut e = s;
        while e < n && text.get_char(e) != '\n'
            invariant
                s <= e <= n,
                n == text@.len(),
                forall|k: int| s <= k < e ==> text@[k] != '\n',
            decreases n - e,
        {
            e = e + 1;
        }
        assert(is_line(text@, s as int, e as int));
        assert forall|e2: int| #[trigger] is_line(text@, s as int, e2) implies e2 == e by {
            if e2 < e {
                assert(text@[e2] != '\n');
            } else if e2 > e {
                assert(text@[e as int] == '\n');
            }
        }
        if line_declares_id(text, s, e) {
            let id = text.substring_char(s + 5, e).to_owned();
            assert(id@ =~= text@.subrange(s as int, e as int).skip(5));
            assert(is_first_legacy_id(text@, s as int, e as int, id@));
            assert(first_legacy_id_is(text@, id@));
            return Some(id);
        }
        if e == n {
            assert forall|s2: int, e2: int| #[trigger] is_line(text@, s2, e2) implies legacy_id_of_line(
                text@.subrange(s2, e2),
            ) is None by {
                if s < s2 {
                    assert(text@[s2 - 1] != '\n');
                }
            }
            return None;
        }
        assert forall|s2: int, e2: int|
            s2 < e + 1 && #[trigger] is_line(text@, s2, e2) implies legacy_id_of_line(
            text@.subrange(s2, e2),
        ) is None by {
            if s < s2 {
                assert(text@[s2 - 1] != '\n');
            }
        }
        s = e + 1;
    }
}

/// `b` is `a` with its front-matter identifier possibly replaced.
pub open spec fn same_but_id(a: FileData, b: FileData) -> bool {
    &&& b.headings == a.headings
    &&& b.check_boxes == a.check_boxes
    &&& b.front_matter.title == a.front_matter.title
    &&& b.front_matter.desc == a.front_matter.desc
    &&& b.front_matter.updated == a.front_matter.updated
    &&& b.front_matter.created == a.front_matter.created
    &&& b.front_matter.tags == a.front_matter.tags
    &&& b.front_matter.status == a.front_matter.status
    &&& b.front_matter.priority == a.front_matter.priority
    &&& b.front_matter.owner == a.front_matter.owner
}

/// The root file's record, with the identifier taken from a legacy
/// `id = ...` line of its text when the front matter declares none.
pub fn recover_root_id(text: &str, record: Result<FileData, DataStoreError>) -> (r: Result<
    FileData,
    DataStoreError,
>)
    ensures
        record is Err ==> r == record,
        record matches Ok(fd) ==> r matches Ok(d) && same_but_id(fd, d) && (if fd.front_matter.id@.len()
            > 0 {
            d.front_matter.id == fd.front_matter.id
        } else if no_legacy_id(text@) {
            d.front_matter.id@.len() == 0
        } else {
            first_legacy_id_is(text@, d.front_matter.id@)
        }),
{
    match record {
        Err(e) => Err(e),
        Ok(mut fd) => {
            if fd.front_matter.id.as_str().is_empty() {
                if let Some(id) = legacy_root_id(text) {
                    fd.front_matter.id = id;
                }
            }
            Ok(fd)
        },
    }
}

} // verus!

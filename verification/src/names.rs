//! The names under which a download is kept in the destination directory.
//!
//! A file is written under a temporary name first, which is the final name
//! with `.part` behind it. The temporary name is told from the name of every
//! plugin archive, and from the temporary name of every other file.

use crate::scan::{
    archive_suffix, is_archive_name, is_candidate, is_named, lowered, scan_result, Listing,
};
use crate::text::lemma_encode_concat;
use vstd::prelude::*;
use vstd::string::StringExecFns;
use vstd::utf8::{
    decode_utf8_encode_utf8, encode_utf8, is_ascii_chars, is_ascii_chars_encode_utf8, valid_utf8,
};

verus! {

/// What is put behind a file's name to name its temporary file.
pub const TEMP_SUFFIX: &'static str = ".part";

/// A character that no file name holds: the separators of path components, and NUL.
pub open spec fn is_separator(c: char) -> bool {
    c == '/' || c == '\\' || c == '\0'
}

/// Whether `name` can be the name of a file directly in the destination
/// directory: it is not empty, it is neither `.` nor `..`, and it holds no
/// separator of path components and no NUL.
pub open spec fn is_file_name(name: Seq<char>) -> bool {
    &&& name.len() > 0
    &&& name != seq!['.']
    &&& name != seq!['.', '.']
    &&& forall|i: int| 0 <= i < name.len() ==> !is_separator(#[trigger] name[i])
}

/// The name of the temporary file for the file `name`.
pub open spec fn temp_name_of(name: Seq<char>) -> Seq<char> {
    name + TEMP_SUFFIX@
}

/// Whether `name` can be the name of a file directly in the destination directory.
pub fn check_file_name(name: &str) -> (ok: bool)
    ensures
        ok == is_file_name(name@),
{
    let mut clean = true;
    let mut only_dots = true;
    let mut seen: u8 = 0;
    for c in chars: name.chars()
        invariant
            chars.seq() == name@,
            seen == if chars.index() < 3 {
                chars.index()
            } else {
                3
            },
            clean == (forall|i: int| 0 <= i < chars.index() ==> !is_separator(#[trigger] name@[i])),
            only_dots == (forall|i: int| 0 <= i < chars.index() ==> #[trigger] name@[i] == '.'),
    {
        if c == '/' || c == '\\' || c == '\0' {
            clean = false;
        }
        if c != '.' {
            only_dots = false;
        }
        if seen < 3 {
            seen += 1;
        }
    }
    proof {
        let dot = seq!['.'];
        let dots = seq!['.', '.'];
        assert(dot.len() == 1 && dot[0] == '.');
        assert(dots.len() == 2 && dots[0] == '.' && dots[1] == '.');
        if only_dots && seen == 1 {
            assert(name@ =~= dot);
        }
        if only_dots && seen == 2 {
            assert(name@ =~= dots);
        }
    }
    clean && seen > 0 && !(only_dots && seen <= 2)
}

/// The name of the temporary file for the file `name`.
pub fn temp_name(name: &str) -> (temp: String)
    ensures
        temp@ == temp_name_of(name@),
{
    let mut temp = String::from_str(name);
    temp.append(TEMP_SUFFIX);
    temp
}

/// The temporary file never has the name of the file itself.
pub proof fn lemma_temp_name_differs(name: Seq<char>)
    ensures
        temp_name_of(name) != name,
{
    reveal_strlit(".part");
    assert(temp_name_of(name).len() == name.len() + 5);
}

/// Two files have the same temporary file only if they are the same file.
pub proof fn lemma_temp_names_distinct(first: Seq<char>, second: Seq<char>)
    requires
        temp_name_of(first) == temp_name_of(second),
    ensures
        first == second,
{
    assert(first.len() == second.len()) by {
        assert(temp_name_of(first).len() == first.len() + TEMP_SUFFIX@.len());
        assert(temp_name_of(second).len() == second.len() + TEMP_SUFFIX@.len());
    }
    assert forall|i: int| 0 <= i < first.len() implies first[i] == second[i] by {
        assert(temp_name_of(first)[i] == first[i]);
        assert(temp_name_of(second)[i] == second[i]);
    }
    assert(first =~= second);
}

/// The name of a temporary file never has the plugin-archive extension,
/// whatever the file itself is called.
pub proof fn lemma_temp_name_is_no_archive(name: Seq<char>)
    ensures
        !is_archive_name(encode_utf8(temp_name_of(name))),
{
    reveal_strlit(".part");
    let suffix = TEMP_SUFFIX@;
    assert(is_ascii_chars(suffix));
    is_ascii_chars_encode_utf8(suffix);
    lemma_encode_concat(name, suffix);
    let bytes = encode_utf8(temp_name_of(name));
    let tail = encode_utf8(suffix);
    assert(tail.len() == 5);
    assert(tail[1] == 0x70) by {
        assert(suffix[1] == 'p');
    }
    assert(bytes[bytes.len() - 4] == tail[1]);
    let ending = bytes.subrange(bytes.len() - 4, bytes.len() as int).map_values(
        |byte: u8| lowered(byte),
    );
    assert(ending[0] == lowered(bytes[bytes.len() - 4]));
    assert(archive_suffix()[0] == 0x2e);
}

/// A temporary file is never taken for an installed plugin: no scan, of
/// whatever listing, puts the name of a temporary file into the inventory.
pub proof fn lemma_scan_passes_over_temp_files(listing: Listing, name: Seq<char>)
    ensures
        scan_result(listing) matches Ok(found) ==> !found.contains(temp_name_of(name)),
{
    if let Ok(found) = scan_result(listing) {
        let temp = temp_name_of(name);
        if found.contains(temp) {
            let entries = listing->Entries_0@;
            let i = choose|i: int| 0 <= i < entries.len() && is_named(#[trigger] entries[i], temp);
            assert(is_candidate(entries[i]));
            assert(valid_utf8(entries[i].name@));
            decode_utf8_encode_utf8(entries[i].name@);
            lemma_temp_name_is_no_archive(name);
        }
    }
}

} // verus!

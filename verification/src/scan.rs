//! The scan of the plugin directory: which of its entries are installed plugins.
//!
//! The caller lists the directory, one level deep, and hands over what it
//! found. An entry counts if it is not a directory and its name ends in
//! `.jar`, in capital or small letters. The names of the entries that count
//! make up the inventory, and each of them has to be text.

use crate::inventory::Inventory;
use crate::text::decode_text;
use vstd::prelude::*;
use vstd::utf8::{decode_utf8, valid_utf8};

verus! {

/// One entry of a directory listing, as the file system reports it.
#[derive(Debug)]
pub struct DirEntry {
    /// The entry's file name, as the bytes that the file system holds.
    pub name: Vec<u8>,
    /// Whether the entry is a directory.
    pub is_dir: bool,
}

/// What listing the plugin directory gave.
#[derive(Debug)]
pub enum Listing {
    /// There is no such directory.
    Missing,
    /// The entries directly in the directory.
    Entries(Vec<DirEntry>),
}

/// Why a scan gave no inventory.
#[derive(Clone, Copy, Debug, PartialEq, Eq, Structural)]
pub enum ScanError {
    /// The plugin directory does not exist.
    NotFound,
    /// A plugin archive has a file name that is not text.
    Encoding,
}

/// What the names of plugin archives end in: the bytes of `.jar`.
pub open spec fn archive_suffix() -> Seq<u8> {
    seq![0x2e, 0x6a, 0x61, 0x72]
}

/// The byte with an ASCII capital letter turned into its small letter.
pub open spec fn lowered(byte: u8) -> u8 {
    if 0x41 <= byte <= 0x5a {
        (byte + 0x20) as u8
    } else {
        byte
    }
}

/// Whether a file name has the plugin-archive extension: it ends in `.jar`,
/// in capital or small letters, and there is something before the dot.
pub open spec fn is_archive_name(name: Seq<u8>) -> bool {
    &&& name.len() > archive_suffix().len()
    &&& name.subrange(name.len() - archive_suffix().len(), name.len() as int).map_values(
        |byte: u8| lowered(byte),
    ) == archive_suffix()
}

/// Whether a directory entry is taken into the inventory: a plugin archive
/// that is not a directory.
pub open spec fn is_candidate(entry: DirEntry) -> bool {
    !entry.is_dir && is_archive_name(entry.name@)
}

/// Whether `entry` is a candidate whose file name reads as `name`.
pub open spec fn is_named(entry: DirEntry, name: Seq<char>) -> bool {
    is_candidate(entry) && decode_utf8(entry.name@) == name
}

/// Whether some candidate among `entries` has a file name that is not text.
pub open spec fn has_unreadable_name(entries: Seq<DirEntry>) -> bool {
    exists|i: int|
        0 <= i < entries.len() && is_candidate(#[trigger] entries[i]) && !valid_utf8(
            entries[i].name@,
        )
}

/// The names of the candidates among `entries`.
pub open spec fn candidate_names(entries: Seq<DirEntry>) -> Set<Seq<char>> {
    Set::new(
        |name: Seq<char>|
            exists|i: int| 0 <= i < entries.len() && is_named(#[trigger] entries[i], name),
    )
}

/// What scanning a listing yields: the names of its candidates, unless the
/// directory is missing or one of the candidates has a name that is not text.
pub open spec fn scan_result(listing: Listing) -> Result<Set<Seq<char>>, ScanError> {
    match listing {
        Listing::Missing => Err(ScanError::NotFound),
        Listing::Entries(entries) => if has_unreadable_name(entries@) {
            Err(ScanError::Encoding)
        } else {
            Ok(candidate_names(entries@))
        },
    }
}

/// The small letter of an ASCII capital letter; any other byte as it is.
fn lower(byte: u8) -> (low: u8)
    ensures
        low == lowered(byte),
{
    if 0x41 <= byte && byte <= 0x5a {
        byte + 0x20
    } else {
        byte
    }
}

/// Whether a file name has the plugin-archive extension.
pub fn has_archive_extension(name: &[u8]) -> (yes: bool)
    ensures
        yes == is_archive_name(name@),
{
    let n: usize = name.len();
    if n <= 4 {
        return false;
    }
    // A dot, then `j`, `a` and `r` in either case.
    let yes = name[n - 4] == 0x2e && lower(name[n - 3]) == 0x6a && lower(name[n - 2]) == 0x61
        && lower(name[n - 1]) == 0x72;
    proof {
        let tail = name@.subrange(n - 4, n as int).map_values(|byte: u8| lowered(byte));
        assert(tail.len() == 4);
        assert(tail[0] == lowered(name@[n - 4]));
        assert(tail[1] == lowered(name@[n - 3]));
        assert(tail[2] == lowered(name@[n - 2]));
        assert(tail[3] == lowered(name@[n - 1]));
        if yes {
            assert(tail =~= archive_suffix());
        } else {
            assert(archive_suffix()[0] == 0x2e);
            assert(archive_suffix()[1] == 0x6a);
            assert(archive_suffix()[2] == 0x61);
            assert(archive_suffix()[3] == 0x72);
        }
    }
    yes
}

/// Builds the local inventory from a listing of the plugin directory.
///
/// Only the entries directly in the directory are looked at. Directories are
/// passed over, and so is every file without the plugin-archive extension.
/// Each remaining file name must be text: the first that is not ends the scan
/// with `ScanError::Encoding`. A missing directory gives `ScanError::NotFound`.
pub fn scan_mods_dir(listing: &Listing) -> (scanned: Result<Inventory, ScanError>)
    ensures
        match scanned {
            Ok(inventory) => scan_result(*listing) == Ok::<
                Set<Seq<char>>,
                ScanError,
            >(inventory@),
            Err(error) => scan_result(*listing) == Err::<Set<Seq<char>>, ScanError>(error),
        },
{
    match listing {
        Listing::Missing => Err(ScanError::NotFound),
        Listing::Entries(entries) => {
            let mut inventory = Inventory::new();
            let mut i: usize = 0;
            while i < entries.len()
                invariant
                    *listing == Listing::Entries(*entries),
                    i <= entries@.len(),
                    !has_unreadable_name(entries@.take(i as int)),
                    inventory@ =~= candidate_names(entries@.take(i as int)),
                decreases entries@.len() - i,
            {
                let entry = &entries[i];
                let ghost seen = entries@.take(i as int);
                let ghost next = entries@.take(i + 1);
                assert(next =~= seen.push(*entry));
                if !entry.is_dir && has_archive_extension(entry.name.as_slice()) {
                    match decode_text(entry.name.as_slice()) {
                        Some(name) => {
                            inventory.insert(name);
                            assert(is_named(next[i as int], name@));
                        },
                        None => {
                            assert(is_candidate(entries@[i as int]));
                            assert(has_unreadable_name(entries@));
                            return Err(ScanError::Encoding);
                        },
                    }
                }
                assert forall|k: int| 0 <= k < seen.len() implies next[k] == seen[k] by {}
                assert(!has_unreadable_name(next)) by {
                    if has_unreadable_name(next) {
                        let k = choose|k: int|
                            0 <= k < next.len() && is_candidate(#[trigger] next[k]) && !valid_utf8(
                                next[k].name@,
                            );
                        if k < i {
                            assert(is_candidate(seen[k]));
                        }
                    }
                }
                assert(inventory@ =~= candidate_names(next)) by {
                    assert forall|name: Seq<char>| inventory@.contains(name) implies candidate_names(
                        next,
                    ).contains(name) by {
                        if candidate_names(seen).contains(name) {
                            let k = choose|k: int|
                                0 <= k < seen.len() && is_named(#[trigger] seen[k], name);
                            assert(is_named(next[k], name));
                        } else {
                            assert(is_named(next[i as int], name));
                        }
                    }
                    assert forall|name: Seq<char>| candidate_names(next).contains(
                        name,
                    ) implies inventory@.contains(name) by {
                        let k = choose|k: int|
                            0 <= k < next.len() && is_named(#[trigger] next[k], name);
                        if k < i {
                            assert(is_named(seen[k], name));
                        }
                    }
                }
                i += 1;
            }
            assert(entries@.take(i as int) =~= entries@);
            Ok(inventory)
        },
    }
}

} // verus!

//! Which manifest entries are missing from the local inventory.

use crate::inventory::Inventory;
use crate::text::{lemma_texts_push, texts};
use vstd::prelude::*;

verus! {

/// The manifest entry that names the installer. It is not a plugin: it is
/// never downloaded and never counted.
pub const SENTINEL: &'static str = "fabric-installer-1.1.0.exe";

/// A manifest entry that has to be downloaded: not the sentinel, and not held locally.
pub open spec fn is_missing(local: Set<Seq<char>>, name: Seq<char>) -> bool {
    name != SENTINEL@ && !local.contains(name)
}

/// A manifest entry that is already held locally (the sentinel never counts).
pub open spec fn is_matched(local: Set<Seq<char>>, name: Seq<char>) -> bool {
    name != SENTINEL@ && local.contains(name)
}

/// The entries of `remote` that have to be downloaded, in manifest order,
/// each as often as the manifest lists it.
pub open spec fn download_set(local: Set<Seq<char>>, remote: Seq<Seq<char>>) -> Seq<Seq<char>> {
    remote.filter(|name: Seq<char>| is_missing(local, name))
}

/// How many entries of `remote` are already held locally.
pub open spec fn matched_count(local: Set<Seq<char>>, remote: Seq<Seq<char>>) -> nat {
    remote.filter(|name: Seq<char>| is_matched(local, name)).len()
}

/// How often the sentinel occurs in `remote`.
pub open spec fn sentinel_count(remote: Seq<Seq<char>>) -> nat {
    remote.filter(|name: Seq<char>| name == SENTINEL@).len()
}

/// A name is on the download list exactly when the manifest lists it, it is
/// not the sentinel, and the local inventory does not hold it.
pub proof fn lemma_download_set_members(
    local: Set<Seq<char>>,
    remote: Seq<Seq<char>>,
    name: Seq<char>,
)
    ensures
        download_set(local, remote).contains(name) <==> remote.contains(name) && is_missing(
            local,
            name,
        ),
{
    let wanted = |name: Seq<char>| is_missing(local, name);
    let listed = remote.filter(wanted);
    broadcast use vstd::seq_lib::group_filter_ensures;

    if listed.contains(name) {
        remote.lemma_filter_contains_rev(wanted, name);
        let i = choose|i: int| 0 <= i < listed.len() && listed[i] == name;
        assert(wanted(listed[i]));
    }
    if remote.contains(name) && is_missing(local, name) {
        let i = choose|i: int| 0 <= i < remote.len() && remote[i] == name;
        assert(wanted(remote[i]));
        assert(listed.contains(remote[i]));
    }
}

/// The download list of two manifests put one after the other is the
/// download list of the first followed by that of the second: the order of
/// the manifest is kept, and an entry listed twice is not merged into one.
pub proof fn lemma_download_set_concat(
    local: Set<Seq<char>>,
    first: Seq<Seq<char>>,
    second: Seq<Seq<char>>,
)
    ensures
        download_set(local, first + second) == download_set(local, first) + download_set(
            local,
            second,
        ),
{
    Seq::filter_distributes_over_add(first, second, |name: Seq<char>| is_missing(local, name));
}

/// Every manifest entry is exactly one of three things: the sentinel, held
/// locally, or on the download list.
pub proof fn lemma_every_entry_accounted_for(local: Set<Seq<char>>, remote: Seq<Seq<char>>)
    ensures
        matched_count(local, remote) + download_set(local, remote).len() + sentinel_count(remote)
            == remote.len(),
    decreases remote.len(),
{
    reveal(Seq::filter);
    if remote.len() > 0 {
        let front = remote.drop_last();
        let last = remote.last();
        lemma_every_entry_accounted_for(local, front);
        assert(remote =~= front.push(last));
        front.lemma_filter_push(last, |name: Seq<char>| is_missing(local, name));
        front.lemma_filter_push(last, |name: Seq<char>| is_matched(local, name));
        front.lemma_filter_push(last, |name: Seq<char>| name == SENTINEL@);
    }
}

/// Where the manifest lists no empty name, the download list holds none.
pub proof fn lemma_download_set_names_not_empty(local: Set<Seq<char>>, remote: Seq<Seq<char>>)
    requires
        forall|i: int| 0 <= i < remote.len() ==> (#[trigger] remote[i]).len() > 0,
    ensures
        forall|i: int|
            0 <= i < download_set(local, remote).len() ==> (#[trigger] download_set(
                local,
                remote,
            )[i]).len() > 0,
{
    let listed = download_set(local, remote);
    assert forall|i: int| 0 <= i < listed.len() implies (#[trigger] listed[i]).len() > 0 by {
        assert(listed.contains(listed[i]));
        lemma_download_set_members(local, remote, listed[i]);
        let k = choose|k: int| 0 <= k < remote.len() && remote[k] == listed[i];
        assert(remote[k].len() > 0);
    }
}

/// What comparing the two inventories yields.
#[derive(Debug)]
pub struct Reconciliation {
    /// The files to download, in manifest order.
    pub missing: Vec<String>,
    /// The number of manifest entries found locally.
    pub matched: usize,
}

/// Compares the manifest with the local inventory, entry by entry and in
/// manifest order: the sentinel is passed over, an entry held locally is
/// counted, any other entry is put on the download list.
///
/// Repeated entries are treated one by one and never merged: a missing file
/// that the manifest lists twice is put on the download list twice, and is
/// then downloaded twice.
pub fn reconcile(local: &Inventory, remote: &Vec<String>) -> (outcome: Reconciliation)
    ensures
        texts(outcome.missing@) == download_set(local@, texts(remote@)),
        outcome.matched == matched_count(local@, texts(remote@)),
{
    let sentinel = SENTINEL.to_owned();
    let mut missing: Vec<String> = Vec::new();
    let mut matched: usize = 0;
    let mut i: usize = 0;
    assert(texts(remote@).take(0) =~= Seq::empty());
    assert(texts(missing@) =~= Seq::empty());
    proof {
        reveal(Seq::filter);
    }
    while i < remote.len()
        invariant
            sentinel@ == SENTINEL@,
            i <= remote@.len(),
            matched <= i,
            texts(missing@) == download_set(local@, texts(remote@).take(i as int)),
            matched == matched_count(local@, texts(remote@).take(i as int)),
        decreases remote@.len() - i,
    {
        let name = &remote[i];
        proof {
            let seen = texts(remote@).take(i as int);
            assert(texts(remote@).take(i + 1) =~= seen.push(name@));
            seen.lemma_filter_push(name@, |name: Seq<char>| is_missing(local@, name));
            seen.lemma_filter_push(name@, |name: Seq<char>| is_matched(local@, name));
        }
        if *name != sentinel {
            if local.contains(name.as_str()) {
                matched += 1;
            } else {
                proof {
                    lemma_texts_push(missing@, *name);
                }
                missing.push(name.clone());
            }
        }
        i += 1;
    }
    assert(texts(remote@).take(i as int) =~= texts(remote@));
    Reconciliation { missing, matched }
}

} // verus!

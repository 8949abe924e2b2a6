//! Choosing exactly one chip and one binary from the catalog, with or without
//! a hint from the user. Resolution never guesses between peers: without a
//! hint it picks only a sole candidate, or the latest binary when asked to.

use vstd::prelude::*;
use crate::catalog::{Binary, Chip, Version, version_le, version_lt};

verus! {

/// Why resolution failed. `K` is what entries are matched on: a chip name or
/// a binary version. Each payload lists every catalog entry so that the user
/// can pick one: chips in catalog order, versions the newest first.
#[derive(Clone, Debug)]
pub enum ResolutionError<K> {
    EmptyCatalog,
    Ambiguous { available: Vec<K> },
    NotFound { requested: K, available: Vec<K> },
}

/// `available` names the chips one for one, in catalog order.
pub open spec fn names_listed(available: Seq<String>, chips: Seq<Chip>) -> bool {
    &&& available.len() == chips.len()
    &&& forall|i: int| 0 <= i < chips.len() ==> #[trigger] available[i]@ == chips[i].name@
}

pub open spec fn has_chip_named(chips: Seq<Chip>, name: Seq<char>) -> bool {
    exists|i: int| 0 <= i < chips.len() && #[trigger] chips[i].name@ == name
}

/// `i` is the first chip whose name is exactly `name`.
pub open spec fn first_chip_named(chips: Seq<Chip>, name: Seq<char>, i: int) -> bool {
    &&& 0 <= i < chips.len()
    &&& chips[i].name@ == name
    &&& forall|j: int| 0 <= j < i ==> #[trigger] chips[j].name@ != name
}

pub open spec fn versions_of(binaries: Seq<Binary>) -> Seq<Version> {
    binaries.map_values(|b: Binary| b.version)
}

/// No version in `s` is newer than one before it.
pub open spec fn newest_first(s: Seq<Version>) -> bool {
    forall|i: int, j: int| 0 <= i < j < s.len() ==> version_le(#[trigger] s[j], #[trigger] s[i])
}

/// `available` holds the binaries' versions, each as often as it occurs,
/// the newest first.
pub open spec fn versions_listed(available: Seq<Version>, binaries: Seq<Binary>) -> bool {
    &&& newest_first(available)
    &&& available.to_multiset() == versions_of(binaries).to_multiset()
}

pub open spec fn has_binary_versioned(binaries: Seq<Binary>, v: Version) -> bool {
    exists|i: int| 0 <= i < binaries.len() && #[trigger] binaries[i].version == v
}

/// `i` is the first binary whose version is exactly `v`.
pub open spec fn first_binary_versioned(binaries: Seq<Binary>, v: Version, i: int) -> bool {
    &&& 0 <= i < binaries.len()
    &&& binaries[i].version == v
    &&& forall|j: int| 0 <= j < i ==> #[trigger] binaries[j].version != v
}

/// `i` is a binary whose version no other binary's version exceeds.
pub open spec fn is_latest(binaries: Seq<Binary>, i: int) -> bool {
    &&& 0 <= i < binaries.len()
    &&& forall|j: int| 0 <= j < binaries.len() ==> version_le(#[trigger] binaries[j].version, binaries[i].version)
}

pub open spec fn hint_text(hint: Option<String>) -> Option<Seq<char>> {
    match hint {
        Some(h) => Some(h@),
        None => None,
    }
}

/// What resolving a chip yields. With a hint, the first chip named exactly
/// so, or `NotFound` listing every chip where none is. Without one, the sole
/// chip, `EmptyCatalog`, or `Ambiguous` listing every chip.
pub open spec fn chip_resolution(chips: Seq<Chip>, hint: Option<Seq<char>>, r: Result<usize, ResolutionError<String>>) -> bool {
    match hint {
        Some(h) => match r {
            Ok(i) => first_chip_named(chips, h, i as int),
            Err(ResolutionError::NotFound { requested, available }) => {
                &&& requested@ == h
                &&& !has_chip_named(chips, h)
                &&& names_listed(available@, chips)
            },
            Err(_) => false,
        },
        None => match r {
            Ok(i) => chips.len() == 1 && i == 0,
            Err(ResolutionError::EmptyCatalog) => chips.len() == 0,
            Err(ResolutionError::Ambiguous { available }) => chips.len() >= 2 && names_listed(available@, chips),
            Err(_) => false,
        },
    }
}

/// What resolving a binary yields. With a version hint, the first binary of
/// exactly that version, or `NotFound` listing every version where none is.
/// Without one, the sole binary, `EmptyCatalog`, or where there are several
/// the latest if `prefer_latest` holds and `Ambiguous` listing every version
/// otherwise.
pub open spec fn binary_resolution(
    binaries: Seq<Binary>,
    hint: Option<Version>,
    prefer_latest: bool,
    r: Result<usize, ResolutionError<Version>>,
) -> bool {
    match hint {
        Some(v) => match r {
            Ok(i) => first_binary_versioned(binaries, v, i as int),
            Err(ResolutionError::NotFound { requested, available }) => {
                &&& requested == v
                &&& !has_binary_versioned(binaries, v)
                &&& versions_listed(available@, binaries)
            },
            Err(_) => false,
        },
        None => match r {
            Ok(i) => {
                ||| (binaries.len() == 1 && i == 0)
                ||| (prefer_latest && binaries.len() >= 2 && is_latest(binaries, i as int))
            },
            Err(ResolutionError::EmptyCatalog) => binaries.len() == 0,
            Err(ResolutionError::Ambiguous { available }) => {
                &&& !prefer_latest
                &&& binaries.len() >= 2
                &&& versions_listed(available@, binaries)
            },
            Err(_) => false,
        },
    }
}

fn chip_names(chips: &Vec<Chip>) -> (r: Vec<String>)
    ensures
        names_listed(r@, chips@),
{
    let mut names: Vec<String> = Vec::new();
    let mut i: usize = 0;
    while i < chips.len()
        invariant
            i <= chips@.len(),
            names@.len() == i,
            forall|k: int| 0 <= k < i ==> #[trigger] names@[k]@ == chips@[k].name@,
        decreases chips@.len() - i,
    {
        names.push(chips[i].name.clone());
        i += 1;
    }
    names
}

fn versions_newest_first(binaries: &Vec<Binary>) -> (r: Vec<Version>)
    ensures
        versions_listed(r@, binaries@),
{
    let mut sorted: Vec<Version> = Vec::new();
    let mut n: usize = 0;
    assert(versions_of(binaries@.subrange(0, 0)) =~= sorted@);
    while n < binaries.len()
        invariant
            n <= binaries@.len(),
            newest_first(sorted@),
            sorted@.to_multiset() == versions_of(binaries@.subrange(0, n as int)).to_multiset(),
        decreases binaries@.len() - n,
    {
        let v = binaries[n].version;
        let mut p: usize = 0;
        while p < sorted.len() && !sorted[p].precedes(&v)
            invariant
                p <= sorted@.len(),
                forall|k: int| 0 <= k < p ==> !version_lt(#[trigger] sorted@[k], v),
            decreases sorted@.len() - p,
        {
            p += 1;
        }
        let ghost old_sorted = sorted@;
        sorted.insert(p, v);
        assert(sorted@ == old_sorted.insert(p as int, v));
        assert forall|i: int, j: int| 0 <= i < j < sorted@.len() implies version_le(#[trigger] sorted@[j], #[trigger] sorted@[i]) by {
            if j < p {
                assert(sorted@[i] == old_sorted[i] && sorted@[j] == old_sorted[j]);
            } else if j == p {
                assert(sorted@[i] == old_sorted[i]);
                assert(!version_lt(old_sorted[i], v));
            } else if i < p {
                assert(sorted@[i] == old_sorted[i] && sorted@[j] == old_sorted[j - 1]);
            } else if i == p {
                assert(sorted@[j] == old_sorted[j - 1]);
                assert(version_le(old_sorted[j - 1], old_sorted[p as int]));
                assert(version_lt(old_sorted[p as int], v));
            } else {
                assert(sorted@[i] == old_sorted[i - 1] && sorted@[j] == old_sorted[j - 1]);
            }
        }
        let ghost prefix = versions_of(binaries@.subrange(0, n as int));
        assert(versions_of(binaries@.subrange(0, n + 1)) =~= prefix.push(v));
        proof {
            vstd::seq_lib::to_multiset_build(prefix, v);
            vstd::seq_lib::to_multiset_insert(old_sorted, p as int, v);
        }
        assert(prefix.push(v).to_multiset() =~= prefix.to_multiset().insert(v));
        n += 1;
    }
    assert(binaries@.subrange(0, n as int) =~= binaries@);
    sorted
}

/// The first chip named exactly `name`.
fn find_chip(chips: &Vec<Chip>, name: &String) -> (r: Option<usize>)
    ensures
        match r {
            Some(i) => first_chip_named(chips@, name@, i as int),
            None => !has_chip_named(chips@, name@),
        },
{
    let mut i: usize = 0;
    while i < chips.len()
        invariant
            i <= chips@.len(),
            forall|j: int| 0 <= j < i ==> #[trigger] chips@[j].name@ != name@,
        decreases chips@.len() - i,
    {
        if chips[i].name == *name {
            return Some(i);
        }
        i += 1;
    }
    None
}

/// The first binary of exactly version `v`.
fn find_binary(binaries: &Vec<Binary>, v: Version) -> (r: Option<usize>)
    ensures
        match r {
            Some(i) => first_binary_versioned(binaries@, v, i as int),
            None => !has_binary_versioned(binaries@, v),
        },
{
    let mut i: usize = 0;
    while i < binaries.len()
        invariant
            i <= binaries@.len(),
            forall|j: int| 0 <= j < i ==> #[trigger] binaries@[j].version != v,
        decreases binaries@.len() - i,
    {
        if binaries[i].version == v {
            return Some(i);
        }
        i += 1;
    }
    None
}

/// Picks the chip to program. With a hint, the first chip whose name equals
/// it exactly; without one, the sole chip of the catalog.
pub fn resolve_chip(chips: &Vec<Chip>, hint: Option<String>) -> (r: Result<usize, ResolutionError<String>>)
    ensures
        chip_resolution(chips@, hint_text(hint), r),
{
    match hint {
        Some(h) => match find_chip(chips, &h) {
            Some(i) => Ok(i),
            None => Err(ResolutionError::NotFound { requested: h, available: chip_names(chips) }),
        },
        None => {
            if chips.len() == 0 {
                Err(ResolutionError::EmptyCatalog)
            } else if chips.len() == 1 {
                Ok(0)
            } else {
                Err(ResolutionError::Ambiguous { available: chip_names(chips) })
            }
        },
    }
}

/// The binary with the highest version, `None` for an empty list. Among
/// binaries that share the highest version no particular one is promised.
pub fn latest_binary(binaries: &Vec<Binary>) -> (r: Option<usize>)
    ensures
        r.is_none() <==> binaries@.len() == 0,
        r matches Some(i) ==> is_latest(binaries@, i as int),
{
    if binaries.len() == 0 {
        return None;
    }
    let mut best: usize = 0;
    let mut i: usize = 1;
    while i < binaries.len()
        invariant
            1 <= i <= binaries@.len(),
            best < i,
            forall|j: int| 0 <= j < i ==> version_le(#[trigger] binaries@[j].version, binaries@[best as int].version),
        decreases binaries@.len() - i,
    {
        if !binaries[i].version.precedes(&binaries[best].version) {
            best = i;
        }
        i += 1;
    }
    Some(best)
}

/// Picks the binary to program. With a version hint, the first binary of
/// exactly that version. Without one, the sole binary; where there are
/// several, the latest if `prefer_latest` is set and an error otherwise.
pub fn resolve_binary(binaries: &Vec<Binary>, hint: Option<Version>, prefer_latest: bool) -> (r: Result<usize, ResolutionError<Version>>)
    ensures
        binary_resolution(binaries@, hint, prefer_latest, r),
{
    match hint {
        Some(v) => match find_binary(binaries, v) {
            Some(i) => Ok(i),
            None => Err(ResolutionError::NotFound { requested: v, available: versions_newest_first(binaries) }),
        },
        None => {
            if binaries.len() == 0 {
                Err(ResolutionError::EmptyCatalog)
            } else if binaries.len() == 1 {
                Ok(0)
            } else if prefer_latest {
                match latest_binary(binaries) {
                    Some(i) => Ok(i),
                    None => Err(ResolutionError::EmptyCatalog),
                }
            } else {
                Err(ResolutionError::Ambiguous { available: versions_newest_first(binaries) })
            }
        },
    }
}

/// How many entries of `names` read `name`.
pub open spec fn occurrences(names: Seq<String>, name: Seq<char>) -> nat
    decreases names.len(),
{
    if names.len() == 0 {
        0
    } else {
        occurrences(names.drop_last(), name) + if names.last()@ == name { 1nat } else { 0nat }
    }
}

pub open spec fn distinct_names(chips: Seq<Chip>) -> bool {
    forall|i: int, j: int| 0 <= i < j < chips.len() ==> #[trigger] chips[i].name@ != #[trigger] chips[j].name@
}

proof fn lemma_prefix_occurrences(chips: Seq<Chip>, available: Seq<String>, i: int, n: int)
    requires
        names_listed(available, chips),
        distinct_names(chips),
        0 <= i < chips.len(),
        0 <= n <= chips.len(),
    ensures
        occurrences(available.take(n), chips[i].name@) == if i < n { 1nat } else { 0nat },
    decreases n,
{
    if n > 0 {
        lemma_prefix_occurrences(chips, available, i, n - 1);
        assert(available.take(n).drop_last() =~= available.take(n - 1));
        assert(available.take(n).last() == available[n - 1]);
        assert(available[n - 1]@ == chips[n - 1].name@);
    }
}

/// A catalog with one chip whose only binary is the one to take: resolving
/// without hints yields that chip and that binary, whether or not the latest
/// binary is preferred.
pub proof fn lemma_sole_entries_resolve(
    chips: Seq<Chip>,
    chip_result: Result<usize, ResolutionError<String>>,
    binaries: Seq<Binary>,
    prefer_latest: bool,
    binary_result: Result<usize, ResolutionError<Version>>,
)
    requires
        chips.len() == 1,
        binaries.len() == 1,
        chip_resolution(chips, None, chip_result),
        binary_resolution(binaries, None, prefer_latest, binary_result),
    ensures
        chip_result == Ok::<usize, ResolutionError<String>>(0),
        binary_result == Ok::<usize, ResolutionError<Version>>(0),
{
}

/// Resolving a chip without a hint in a catalog of two chips or more fails
/// as ambiguous; where the chips have distinct names, the list that comes
/// with the error holds the name of every chip exactly once.
pub proof fn lemma_ambiguity_lists_each_chip_once(chips: Seq<Chip>, r: Result<usize, ResolutionError<String>>)
    requires
        chips.len() >= 2,
        chip_resolution(chips, None, r),
    ensures
        r matches Err(ResolutionError::Ambiguous { .. }),
        r matches Err(ResolutionError::Ambiguous { available }) ==> distinct_names(chips) ==> forall|i: int|
            0 <= i < chips.len() ==> occurrences(available@, #[trigger] chips[i].name@) == 1,
{
    if let Err(ResolutionError::Ambiguous { available }) = r {
        if distinct_names(chips) {
            let names = available@;
            assert forall|i: int| 0 <= i < chips.len() implies occurrences(names, #[trigger] chips[i].name@) == 1 by {
                lemma_prefix_occurrences(chips, names, i, chips.len() as int);
                assert(names.take(chips.len() as int) =~= names);
            }
        }
    }
}

/// A hint that no entry matches exactly fails as not found, naming the hint,
/// and any entry that resolution does return matches the hint exactly: no
/// near match is ever taken.
pub proof fn lemma_hint_matches_exactly_or_not_found(
    chips: Seq<Chip>,
    name: Seq<char>,
    chip_result: Result<usize, ResolutionError<String>>,
    binaries: Seq<Binary>,
    version: Version,
    prefer_latest: bool,
    binary_result: Result<usize, ResolutionError<Version>>,
)
    requires
        chip_resolution(chips, Some(name), chip_result),
        binary_resolution(binaries, Some(version), prefer_latest, binary_result),
    ensures
        !has_chip_named(chips, name) ==> (chip_result matches Err(ResolutionError::NotFound { requested, .. })
            && requested@ == name),
        chip_result matches Ok(i) ==> chips[i as int].name@ == name,
        !has_binary_versioned(binaries, version) ==> (binary_result matches Err(ResolutionError::NotFound { requested, .. })
            && requested == version),
        binary_result matches Ok(i) ==> binaries[i as int].version == version,
{
}

} // verus!

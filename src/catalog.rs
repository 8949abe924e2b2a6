//! The catalog's data: chips, their firmware binaries, and the parts that make
//! up a binary, with the semantic-version precedence used to compare binaries.

use vstd::prelude::*;

verus! {

/// A semantic version. Pre-release and build metadata take no part in
/// comparisons here, so they are not kept.
#[derive(Clone, Copy, Debug, PartialEq, Eq, Structural)]
pub struct Version {
    pub major: u64,
    pub minor: u64,
    pub patch: u64,
}

/// Precedence of semantic versions: major, then minor, then patch.
pub open spec fn version_lt(a: Version, b: Version) -> bool {
    ||| a.major < b.major
    ||| (a.major == b.major && a.minor < b.minor)
    ||| (a.major == b.major && a.minor == b.minor && a.patch < b.patch)
}

pub open spec fn version_le(a: Version, b: Version) -> bool {
    version_lt(a, b) || a == b
}

impl Version {
    pub fn new(major: u64, minor: u64, patch: u64) -> (r: Version)
        ensures
            r == (Version { major, minor, patch }),
    {
        Version { major, minor, patch }
    }

    /// Whether `self` precedes `other`.
    pub fn precedes(&self, other: &Version) -> (r: bool)
        ensures
            r == version_lt(*self, *other),
    {
        if self.major != other.major {
            self.major < other.major
        } else if self.minor != other.minor {
            self.minor < other.minor
        } else {
            self.patch < other.patch
        }
    }
}

/// What semver's parser reads from a text: the version's three numbers, or
/// nothing where the text is not a semantic version.
pub uninterp spec fn semver_numbers_of(text: Seq<char>) -> Option<(u64, u64, u64)>;

#[verifier::external_type_specification]
#[verifier::external_body]
pub struct ExSemverError(semver::Error);

/// Relies on semver::Version::parse: it accepts a text or refuses it by the
/// text alone, and on success reports the three numbers it read. The
/// pre-release and build parts it also reads are dropped here.
#[verifier::external_body]
fn semver_parse(text: &str) -> (r: Result<Version, semver::Error>)
    ensures
        match r {
            Ok(v) => semver_numbers_of(text@) == Some((v.major, v.minor, v.patch)),
            Err(_) => semver_numbers_of(text@).is_none(),
        },
{
    match semver::Version::parse(text) {
        Ok(v) => Ok(Version { major: v.major, minor: v.minor, patch: v.patch }),
        Err(e) => Err(e),
    }
}

/// A version text that is not a semantic version.
#[derive(Clone, Debug, PartialEq, Eq)]
pub struct VersionError {
    pub text: String,
}

/// Reads a version hint such as `1.2.0`; pre-release and build metadata are
/// accepted and then ignored.
pub fn parse_version(text: &str) -> (r: Result<Version, VersionError>)
    ensures
        match r {
            Ok(v) => semver_numbers_of(text@) == Some((v.major, v.minor, v.patch)),
            Err(e) => semver_numbers_of(text@).is_none() && e.text@ == text@,
        },
{
    match semver_parse(text) {
        Ok(v) => Ok(v),
        Err(_) => Err(VersionError { text: text.to_owned() }),
    }
}

/// The container format of a binary part.
#[derive(Clone, Copy, Debug, PartialEq, Eq, Structural)]
pub enum BinaryKind {
    Elf,
    Bin,
    Hex,
}

/// What the server's analysis found of a whole binary.
#[derive(Clone, Copy, Debug, PartialEq, Eq, Structural)]
pub struct BinaryAnalysis {
    pub nvm_size: u64,
}

/// What the server's analysis found of one part: the bytes it occupies in
/// non-volatile memory.
#[derive(Clone, Copy, Debug, PartialEq, Eq, Structural)]
pub struct BinaryPartAnalysis {
    pub nvm_size: u64,
}

/// One segment of a firmware binary. Ids are UUIDs held as 128-bit integers.
#[derive(Clone, Debug)]
pub struct BinaryPart {
    pub id: u128,
    pub binary_id: u128,
    pub kind: BinaryKind,
    /// The load address, for a raw `Bin` part.
    pub memory_offset: Option<u64>,
    /// The SHA-256 digest that the part's bytes must have.
    pub content_hash: Vec<u8>,
    pub analysis: Option<BinaryPartAnalysis>,
}

impl BinaryPart {
    /// The size the part is expected to have, where the server knows it.
    pub fn size_hint(&self) -> (r: Option<u64>)
        ensures
            r == (match self.analysis {
                Some(a) => Some(a.nvm_size),
                None => None::<u64>,
            }),
    {
        match self.analysis {
            Some(a) => Some(a.nvm_size),
            None => None,
        }
    }
}

/// A versioned firmware image of one chip; its parts are listed in the order
/// in which they are programmed.
#[derive(Clone, Debug)]
pub struct Binary {
    pub id: u128,
    pub version: Version,
    pub parts: Vec<BinaryPart>,
}

impl Binary {
    pub fn version(&self) -> (r: Version)
        ensures
            r == self.version,
    {
        self.version
    }
}

/// A hardware target registered in the catalog. `name` is the label users
/// match on and need not be unique; `part_number` identifies the target to the
/// debug probe.
#[derive(Clone, Debug)]
pub struct Chip {
    pub id: u128,
    pub name: String,
    pub part_number: String,
    pub binaries: Vec<Binary>,
}

/// The first of `ids` that is `part_id`; `None` where the binary has no
/// such part.
pub fn find_part(ids: &Vec<u128>, part_id: u128) -> (r: Option<usize>)
    ensures
        match r {
            Some(i) => i < ids@.len() && ids@[i as int] == part_id
                && forall|j: int| 0 <= j < i ==> #[trigger] ids@[j] != part_id,
            None => forall|j: int| 0 <= j < ids@.len() ==> #[trigger] ids@[j] != part_id,
        },
{
    let mut i: usize = 0;
    while i < ids.len()
        invariant
            i <= ids@.len(),
            forall|j: int| 0 <= j < i ==> #[trigger] ids@[j] != part_id,
        decreases ids@.len() - i,
    {
        if ids[i] == part_id {
            return Some(i);
        }
        i += 1;
    }
    None
}

} // verus!

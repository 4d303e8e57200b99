//! Format versions of the shader container, and the once-only detection of
//! the version that the running client reads.

use crate::bytes::{contains, first_match};
use vstd::prelude::*;
use vstd::string::StringSliceAdditionalSpecFns;

verus! {

/// A version of the shader-container format, named after the first client
/// release that reads it. Later variants are newer.
#[derive(Clone, Copy, Debug, PartialEq, Eq, Structural, Hash)]
pub enum FormatVersion {
    V1_18_30,
    V1_19_60,
    V1_20_80,
    V1_21_20,
    V1_21_110,
}

impl FormatVersion {
    /// The place of the version in the order of releases, oldest first.
    pub open spec fn rank(self) -> nat {
        match self {
            FormatVersion::V1_18_30 => 0,
            FormatVersion::V1_19_60 => 1,
            FormatVersion::V1_20_80 => 2,
            FormatVersion::V1_21_20 => 3,
            FormatVersion::V1_21_110 => 4,
        }
    }

    /// The place of the version in the order of releases, oldest first.
    pub fn ordinal(self) -> (place: u8)
        ensures
            place == self.rank(),
    {
        match self {
            FormatVersion::V1_18_30 => 0,
            FormatVersion::V1_19_60 => 1,
            FormatVersion::V1_20_80 => 2,
            FormatVersion::V1_21_20 => 3,
            FormatVersion::V1_21_110 => 4,
        }
    }

    /// Whether `self` is `other` or newer.
    pub fn at_least(self, other: FormatVersion) -> (yes: bool)
        ensures
            yes == (self.rank() >= other.rank()),
    {
        self.ordinal() >= other.ordinal()
    }

    /// Whether `self` is `other` or older.
    pub fn at_most(self, other: FormatVersion) -> (yes: bool)
        ensures
            yes == (self.rank() <= other.rank()),
    {
        self.ordinal() <= other.ordinal()
    }
}

/// Every known version, newest first: the order in which detection tries them.
pub open spec fn newest_first() -> Seq<FormatVersion> {
    seq![
        FormatVersion::V1_21_110,
        FormatVersion::V1_21_20,
        FormatVersion::V1_20_80,
        FormatVersion::V1_19_60,
        FormatVersion::V1_18_30,
    ]
}

/// Every known version, newest first.
pub fn all_versions_newest_first() -> (order: Vec<FormatVersion>)
    ensures
        order@ == newest_first(),
{
    let mut order: Vec<FormatVersion> = Vec::new();
    order.push(FormatVersion::V1_21_110);
    order.push(FormatVersion::V1_21_20);
    order.push(FormatVersion::V1_20_80);
    order.push(FormatVersion::V1_19_60);
    order.push(FormatVersion::V1_18_30);
    assert(order@ =~= newest_first());
    order
}

/// The first version of `order` that is among `parsed`.
pub open spec fn first_listed(order: Seq<FormatVersion>, parsed: Seq<FormatVersion>) -> Option<
    FormatVersion,
>
    decreases order.len(),
{
    if order.len() == 0 {
        None
    } else if parsed.contains(order.first()) {
        Some(order.first())
    } else {
        first_listed(order.drop_first(), parsed)
    }
}

/// Whether `version` is among `versions`.
pub fn is_listed(versions: &[FormatVersion], version: FormatVersion) -> (listed: bool)
    ensures
        listed == versions@.contains(version),
{
    let mut i: usize = 0;
    while i < versions.len()
        invariant
            i <= versions@.len(),
            forall|k: int| 0 <= k < i ==> versions@[k] != version,
        decreases versions@.len() - i,
    {
        if versions[i] == version {
            return true;
        }
        i += 1;
    }
    false
}

/// Goes through `order` and returns the first version under which the bytes
/// in question parse; `parses_under` lists the versions under which they do.
pub fn first_parsing(order: &[FormatVersion], parses_under: &[FormatVersion]) -> (found: Option<
    FormatVersion,
>)
    ensures
        found == first_listed(order@, parses_under@),
{
    let mut i: usize = 0;
    assert(order@.skip(0) == order@);
    while i < order.len()
        invariant
            i <= order@.len(),
            first_listed(order@, parses_under@) == first_listed(
                order@.skip(i as int),
                parses_under@,
            ),
        decreases order@.len() - i,
    {
        let candidate = order[i];
        assert(order@.skip(i as int).first() == candidate);
        if is_listed(parses_under, candidate) {
            return Some(candidate);
        }
        assert(order@.skip(i as int).drop_first() == order@.skip(i + 1));
        i += 1;
    }
    None
}

/// What `first_listed` finds is listed in both, and nothing before it in
/// `order` is among `parsed`; it finds nothing only where no version of
/// `order` is among `parsed`.
pub proof fn lemma_first_listed(order: Seq<FormatVersion>, parsed: Seq<FormatVersion>)
    ensures
        match first_listed(order, parsed) {
            Some(version) => exists|at: int|
                {
                    &&& 0 <= at < order.len()
                    &&& #[trigger] order[at] == version
                    &&& parsed.contains(version)
                    &&& forall|before: int| 0 <= before < at ==> !parsed.contains(#[trigger] order[before])
                },
            None => forall|at: int| 0 <= at < order.len() ==> !parsed.contains(#[trigger] order[at]),
        },
    decreases order.len(),
{
    if order.len() == 0 {
    } else if parsed.contains(order.first()) {
        assert(order[0] == order.first());
    } else {
        let rest = order.drop_first();
        lemma_first_listed(rest, parsed);
        match first_listed(rest, parsed) {
            Some(version) => {
                let at = choose|at: int|
                    {
                        &&& 0 <= at < rest.len()
                        &&& #[trigger] rest[at] == version
                        &&& parsed.contains(version)
                        &&& forall|before: int|
                            0 <= before < at ==> !parsed.contains(#[trigger] rest[before])
                    };
                assert(order[at + 1] == version);
                assert forall|before: int| 0 <= before < at + 1 implies !parsed.contains(
                    #[trigger] order[before],
                ) by {
                    if before > 0 {
                        assert(order[before] == rest[before - 1]);
                    }
                }
            },
            None => {
                assert forall|at: int| 0 <= at < order.len() implies !parsed.contains(
                    #[trigger] order[at],
                ) by {
                    if at > 0 {
                        assert(order[at] == rest[at - 1]);
                    }
                }
            },
        }
    }
}

/// Trying the versions newest first finds the newest version under which the
/// bytes parse, and finds none only where they parse under none.
pub proof fn lemma_newest_first_finds_newest(parsed: Seq<FormatVersion>)
    ensures
        match first_listed(newest_first(), parsed) {
            Some(version) => parsed.contains(version) && forall|other: FormatVersion|
                parsed.contains(other) ==> other.rank() <= version.rank(),
            None => parsed.len() == 0,
        },
{
    let order = newest_first();
    lemma_first_listed(order, parsed);
    match first_listed(order, parsed) {
        Some(version) => {
            assert forall|other: FormatVersion| parsed.contains(other) implies other.rank()
                <= version.rank() by {
                assert(order[4 - other.rank()] == other);
                assert(order[4 - version.rank()] == version);
                assert(order.no_duplicates());
            }
        },
        None => {
            if parsed.len() > 0 {
                let some = parsed[0];
                assert(parsed.contains(some));
                assert(order[4 - some.rank()] == some);
            }
        },
    }
}

/// The text whose presence in the probe asset shows that the client renders
/// with per-vertex dithering.
pub open spec fn feature_marker() -> Seq<u8> {
    "v_dithering".spec_bytes()
}

/// The outcome of probing the client: the format version it reads, if one
/// was recognised, and whether the dithering feature is present.
#[derive(Clone, Copy, Debug, PartialEq, Eq, Structural)]
pub struct Detection {
    pub version: Option<FormatVersion>,
    pub feature_flag: bool,
}

/// What probing concludes from the probe asset's bytes and from the list of
/// versions under which they parse: the newest such version, and the feature
/// flag where a version was found and the marker stands in the bytes. Without
/// an asset nothing is detected.
pub open spec fn detected(asset: Option<Seq<u8>>, parses_under: Seq<FormatVersion>) -> Detection {
    match asset {
        Some(bytes) => {
            let version = first_listed(newest_first(), parses_under);
            Detection {
                version,
                feature_flag: version.is_some() && first_match(bytes, feature_marker()).is_some(),
            }
        },
        None => Detection { version: None, feature_flag: false },
    }
}

/// Concludes the client's format version and feature flag from the probe
/// asset. `asset` holds the asset's bytes, or `None` where it could not be
/// read; `parses_under` lists the versions under which the bytes parse as a
/// shader container.
pub fn get_current_mcver(asset: Option<&[u8]>, parses_under: &[FormatVersion]) -> (found:
    Detection)
    ensures
        found == detected(
            match asset {
                Some(bytes) => Some(bytes@),
                None => None,
            },
            parses_under@,
        ),
{
    let bytes = match asset {
        Some(bytes) => bytes,
        None => {
            return Detection { version: None, feature_flag: false };
        },
    };
    let order = all_versions_newest_first();
    match first_parsing(order.as_slice(), parses_under) {
        Some(version) => Detection {
            version: Some(version),
            feature_flag: contains(bytes, "v_dithering".as_bytes()),
        },
        None => Detection { version: None, feature_flag: false },
    }
}

/// The logical path of the probe asset for the given attempt: first the
/// path of the current layout, then the legacy one, then none.
pub open spec fn probe_path_of(attempt: nat) -> Option<Seq<u8>> {
    if attempt == 0 {
        Some("assets/renderer/materials/RenderChunk.material.bin".spec_bytes())
    } else if attempt == 1 {
        Some("renderer/materials/RenderChunk.material.bin".spec_bytes())
    } else {
        None
    }
}

/// The logical path under which to look for the probe asset at the given
/// attempt, counted from 0. The first path that opens is the one to read.
pub fn probe_path(attempt: usize) -> (path: Option<&'static [u8]>)
    ensures
        match path {
            Some(bytes) => probe_path_of(attempt as nat) == Some(bytes@),
            None => probe_path_of(attempt as nat) is None,
        },
{
    if attempt == 0 {
        Some("assets/renderer/materials/RenderChunk.material.bin".as_bytes())
    } else if attempt == 1 {
        Some("renderer/materials/RenderChunk.material.bin".as_bytes())
    } else {
        None
    }
}

/// The state after `found` was offered to `state`: the first detection stays.
pub open spec fn published(state: Option<Detection>, found: Detection) -> Option<Detection> {
    match state {
        Some(_) => state,
        None => Some(found),
    }
}

/// The detection of the running client, set once and kept from then on.
#[derive(Debug)]
pub struct VersionState {
    found: Option<Detection>,
}

impl View for VersionState {
    type V = Option<Detection>;

    closed spec fn view(&self) -> Option<Detection> {
        self.found
    }
}

impl VersionState {
    /// A state in which nothing was detected yet.
    pub fn new() -> (state: Self)
        ensures
            state@ is None,
    {
        VersionState { found: None }
    }

    /// Whether the client still has to be probed. Once a detection was
    /// published this is false for good.
    pub fn needs_probe(&self) -> (needed: bool)
        ensures
            needed == (self@ is None),
    {
        self.found.is_none()
    }

    /// Offers `found` as the detection. The first detection offered is kept;
    /// every later one is ignored. Returns the detection that is kept.
    pub fn get_or_init(&mut self, found: Detection) -> (kept: Detection)
        ensures
            final(self)@ == published(old(self)@, found),
            final(self)@ == Some(kept),
    {
        match self.found {
            Some(kept) => kept,
            None => {
                self.found = Some(found);
                found
            },
        }
    }

    /// The detection, once there is one.
    pub fn get(&self) -> (found: Option<Detection>)
        ensures
            found == self@,
    {
        self.found
    }

    /// The version that the client reads: `None` while nothing was published
    /// and where probing recognised no version.
    pub fn version(&self) -> (version: Option<FormatVersion>)
        ensures
            version == target_of(self@),
    {
        match self.found {
            Some(found) => found.version,
            None => None,
        }
    }

    /// Whether the client shows the dithering feature.
    pub fn feature_flag(&self) -> (flag: bool)
        ensures
            flag == flag_of(self@),
    {
        match self.found {
            Some(found) => found.feature_flag,
            None => false,
        }
    }
}

/// The version to write containers for, as far as the state knows one.
pub open spec fn target_of(state: Option<Detection>) -> Option<FormatVersion> {
    match state {
        Some(found) => found.version,
        None => None,
    }
}

/// The feature flag of the state; unset while nothing was published.
pub open spec fn flag_of(state: Option<Detection>) -> bool {
    match state {
        Some(found) => found.feature_flag,
        None => false,
    }
}

/// Detection happens once: after the first detection was published the state
/// asks for no further probe, and whatever is offered later leaves the state,
/// and with it the version and the flag, as the first detection set them.
pub proof fn lemma_detection_is_memoized(
    state: Option<Detection>,
    first: Detection,
    second: Detection,
)
    ensures
        published(state, first) is Some,
        published(published(state, first), second) == published(state, first),
        state is None ==> published(published(state, first), second) == Some(first),
{
}

} // verus!
